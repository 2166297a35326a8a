//! AT-URIs: locators of a repository, of a collection in it, or of a record.

use vstd::prelude::*;
use vstd::string::StringSliceAdditionalSpecFns;
use vstd::utf8::encode_utf8;

use crate::did::spec_is_valid_did;
use crate::error::ParseError;
use crate::nsid::{is_valid_nsid, spec_is_valid_nsid, Nsid};
use crate::rkey::{is_valid_record_key, spec_is_valid_record_key, RecordKey};
use crate::scan::{
    ascii_substring, has_byte, head_of, is_ascii_bytes, is_ascii_slice, lemma_ascii_text_ascii_bytes,
    lemma_first_index, split_at_byte, tail_of,
};
use crate::{is_valid_at_identifier, spec_is_valid_at_identifier, AtIdentifier};

verus! {

/// The byte `/`.
pub const SLASH: u8 = 0x2f;

/// The byte `#`.
pub const HASH: u8 = 0x23;

/// The bytes of `at://`, with which every AT-URI starts.
pub open spec fn at_uri_prefix() -> Seq<u8> {
    seq![0x61u8, 0x74u8, 0x3au8, 0x2fu8, 0x2fu8]
}

/// What follows the prefix.
pub open spec fn uri_body(s: Seq<u8>) -> Seq<u8> {
    s.subrange(5, s.len() as int)
}

/// The body up to the first `#`: authority and path.
pub open spec fn uri_main(s: Seq<u8>) -> Seq<u8> {
    head_of(uri_body(s), HASH)
}

/// The fragment: what follows the first `#`, where there is one.
pub open spec fn uri_fragment(s: Seq<u8>) -> Option<Seq<u8>> {
    if has_byte(uri_body(s), HASH) {
        Some(tail_of(uri_body(s), HASH))
    } else {
        None
    }
}

/// The authority: what stands before the first `/` of authority and path.
pub open spec fn uri_authority(s: Seq<u8>) -> Seq<u8> {
    head_of(uri_main(s), SLASH)
}

/// The path: what follows the first `/` of authority and path, where there is
/// one.
pub open spec fn uri_path(s: Seq<u8>) -> Option<Seq<u8>> {
    if has_byte(uri_main(s), SLASH) {
        Some(tail_of(uri_main(s), SLASH))
    } else {
        None
    }
}

/// The collection: the path up to its first `/`.
pub open spec fn uri_collection(s: Seq<u8>) -> Option<Seq<u8>> {
    match uri_path(s) {
        Some(path) => Some(head_of(path, SLASH)),
        None => None,
    }
}

/// The record key: what follows the first `/` of the path.
pub open spec fn uri_rkey(s: Seq<u8>) -> Option<Seq<u8>> {
    match uri_path(s) {
        Some(path) => if has_byte(path, SLASH) {
            Some(tail_of(path, SLASH))
        } else {
            None
        },
        None => None,
    }
}

/// The AT-URI grammar: `at://`, an authority that is a DID or a handle, then
/// nothing more, or `/` and a collection that is an NSID, or that and another
/// `/` and a record key; at the end there may be `#` and a fragment. A record
/// key holds no `/`, so a longer path is rejected. Every byte, those of the
/// fragment too, is an ASCII byte.
pub open spec fn spec_is_valid_at_uri(s: Seq<u8>) -> bool {
    &&& is_ascii_bytes(s)
    &&& s.len() >= 5
    &&& s.subrange(0, 5) == at_uri_prefix()
    &&& spec_is_valid_at_identifier(uri_authority(s))
    &&& (uri_collection(s) matches Some(c) ==> spec_is_valid_nsid(c))
    &&& (uri_rkey(s) matches Some(k) ==> spec_is_valid_record_key(k))
}

/// Where the parts of an AT-URI lie in its bytes: each part from an index up
/// to another.
struct Spans {
    main_end: usize,
    authority_end: usize,
    collection: Option<(usize, usize)>,
    rkey: Option<(usize, usize)>,
    fragment: Option<(usize, usize)>,
}

/// The bytes of `s` that `span` marks: none where there is no span.
spec fn span_bytes(s: Seq<u8>, span: Option<(usize, usize)>) -> Option<Seq<u8>> {
    match span {
        Some((from, to)) => Some(s.subrange(from as int, to as int)),
        None => None,
    }
}

/// A span that lies within `s`.
spec fn span_within(s: Seq<u8>, span: Option<(usize, usize)>) -> bool {
    match span {
        Some((from, to)) => from <= to <= s.len(),
        None => true,
    }
}

impl Spans {
    /// The spans mark the parts of `s`.
    spec fn marks(self, s: Seq<u8>) -> bool {
        &&& 5 <= self.authority_end <= self.main_end <= s.len()
        &&& s.subrange(5, self.main_end as int) == uri_main(s)
        &&& s.subrange(5, self.authority_end as int) == uri_authority(s)
        &&& span_within(s, self.collection)
        &&& span_within(s, self.rkey)
        &&& span_within(s, self.fragment)
        &&& span_bytes(s, self.collection) == uri_collection(s)
        &&& span_bytes(s, self.rkey) == uri_rkey(s)
        &&& span_bytes(s, self.fragment) == uri_fragment(s)
    }
}

/// Finds where authority and path end and where the fragment lies, in bytes
/// that start with the prefix.
fn find_main(bytes: &[u8]) -> (res: (usize, Option<(usize, usize)>))
    requires
        bytes@.len() >= 5,
    ensures
        5 <= res.0 <= bytes@.len(),
        bytes@.subrange(5, res.0 as int) == uri_main(bytes@),
        span_within(bytes@, res.1),
        span_bytes(bytes@, res.1) == uri_fragment(bytes@),
{
    let n: usize = bytes.len();
    let body: &[u8] = vstd::slice::slice_subrange(bytes, 5, n);
    proof {
        lemma_first_index(body@, HASH);
    }
    match split_at_byte(body, HASH) {
        Some((head, tail)) => {
            let end: usize = 5 + head.len();
            assert(bytes@.subrange(5, end as int) =~= head@);
            assert(bytes@.subrange(end + 1, n as int) =~= tail@);
            (end, Some((end + 1, n)))
        },
        None => {
            assert(bytes@.subrange(5, n as int) =~= head_of(body@, HASH));
            (n, None)
        },
    }
}

/// Finds the parts of an AT-URI in `bytes`: none where `bytes` does not start
/// with the prefix.
fn find_spans(bytes: &[u8]) -> (res: Option<Spans>)
    ensures
        res is Some <==> bytes@.len() >= 5 && bytes@.subrange(0, 5) == at_uri_prefix(),
        res matches Some(spans) ==> spans.marks(bytes@),
{
    let n: usize = bytes.len();
    if n < 5 {
        return None;
    }
    if bytes[0] != 0x61 || bytes[1] != 0x74 || bytes[2] != 0x3a || bytes[3] != 0x2f || bytes[4]
        != 0x2f {
        assert(bytes@.subrange(0, 5)[0] == bytes@[0]);
        assert(bytes@.subrange(0, 5)[1] == bytes@[1]);
        assert(bytes@.subrange(0, 5)[2] == bytes@[2]);
        assert(bytes@.subrange(0, 5)[3] == bytes@[3]);
        assert(bytes@.subrange(0, 5)[4] == bytes@[4]);
        return None;
    }
    assert(bytes@.subrange(0, 5) =~= at_uri_prefix());
    let (main_end, fragment): (usize, Option<(usize, usize)>) = find_main(bytes);
    let main: &[u8] = vstd::slice::slice_subrange(bytes, 5, main_end);
    proof {
        lemma_first_index(main@, SLASH);
    }
    match split_at_byte(main, SLASH) {
        None => {
            assert(head_of(main@, SLASH) =~= main@);
            Some(Spans { main_end, authority_end: main_end, collection: None, rkey: None, fragment })
        },
        Some((head, path)) => {
            let authority_end: usize = 5 + head.len();
            let path_start: usize = authority_end + 1;
            assert(head@ =~= bytes@.subrange(5, authority_end as int));
            assert(path@ =~= bytes@.subrange(path_start as int, main_end as int));
            proof {
                lemma_first_index(path@, SLASH);
            }
            match split_at_byte(path, SLASH) {
                None => {
                    assert(head_of(path@, SLASH) =~= path@);
                    Some(
                        Spans {
                            main_end,
                            authority_end,
                            collection: Some((path_start, main_end)),
                            rkey: None,
                            fragment,
                        },
                    )
                },
                Some((coll, key)) => {
                    let coll_end: usize = path_start + coll.len();
                    assert(coll@ =~= bytes@.subrange(path_start as int, coll_end as int));
                    assert(key@ =~= bytes@.subrange(coll_end + 1, main_end as int));
                    Some(
                        Spans {
                            main_end,
                            authority_end,
                            collection: Some((path_start, coll_end)),
                            rkey: Some((coll_end + 1, main_end)),
                            fragment,
                        },
                    )
                },
            }
        },
    }
}

/// Decides whether `s` is an AT-URI.
pub fn is_valid_at_uri(s: &[u8]) -> (res: bool)
    ensures
        res == spec_is_valid_at_uri(s@),
{
    if !is_ascii_slice(s) {
        return false;
    }
    let spans: Spans = match find_spans(s) {
        Some(spans) => spans,
        None => {
            return false;
        },
    };
    if !is_valid_at_identifier(vstd::slice::slice_subrange(s, 5, spans.authority_end)) {
        return false;
    }
    let collection_fits: bool = match spans.collection {
        Some((from, to)) => is_valid_nsid(vstd::slice::slice_subrange(s, from, to)),
        None => true,
    };
    let rkey_fits: bool = match spans.rkey {
        Some((from, to)) => is_valid_record_key(vstd::slice::slice_subrange(s, from, to)),
        None => true,
    };
    collection_fits && rkey_fits
}

/// The bytes that a part of an AT-URI has to be, for a part that holds the
/// text `part`: none for a part that is not there.
pub open spec fn part_bytes(part: Option<Seq<char>>) -> Option<Seq<u8>> {
    match part {
        Some(text) => Some(encode_utf8(text)),
        None => None,
    }
}

/// An AT-URI. A value holds an ASCII text that the AT-URI grammar accepts,
/// and beside it the parts of that text as values of their own.
#[derive(Debug)]
pub struct AtUri {
    text: String,
    authority: AtIdentifier,
    collection: Option<Nsid>,
    rkey: Option<RecordKey>,
    fragment: Option<String>,
}

impl View for AtUri {
    type V = Seq<char>;

    /// The text of the AT-URI.
    closed spec fn view(&self) -> Seq<char> {
        self.text@
    }
}

impl AtUri {
    #[verifier::type_invariant]
    spec fn inv(self) -> bool {
        let b = encode_utf8(self.text@);
        &&& spec_is_valid_at_uri(b)
        &&& encode_utf8(self.authority@) == uri_authority(b)
        &&& (self.authority is Did <==> spec_is_valid_did(uri_authority(b)))
        &&& part_bytes(self.spec_collection_text()) == uri_collection(b)
        &&& part_bytes(self.spec_rkey_text()) == uri_rkey(b)
        &&& part_bytes(self.spec_fragment_text()) == uri_fragment(b)
    }

    spec fn spec_collection_text(self) -> Option<Seq<char>> {
        match self.collection {
            Some(c) => Some(c@),
            None => None,
        }
    }

    spec fn spec_rkey_text(self) -> Option<Seq<char>> {
        match self.rkey {
            Some(k) => Some(k@),
            None => None,
        }
    }

    spec fn spec_fragment_text(self) -> Option<Seq<char>> {
        match self.fragment {
            Some(f) => Some(f@),
            None => None,
        }
    }

    /// What parsing `text` gives: the text itself where the grammar accepts
    /// its bytes.
    pub open spec fn spec_from_str(text: Seq<char>) -> Result<Seq<char>, ParseError> {
        if spec_is_valid_at_uri(encode_utf8(text)) {
            Ok(text)
        } else {
            Err(ParseError::AtUri)
        }
    }

    /// Parses an AT-URI, and its authority, collection and record key with
    /// it.
    pub fn from_str(s: &str) -> (res: Result<AtUri, ParseError>)
        ensures
            res is Ok <==> spec_is_valid_at_uri(s.spec_bytes()),
            match res {
                Ok(uri) => AtUri::spec_from_str(s@) == Ok::<Seq<char>, ParseError>(uri@),
                Err(e) => AtUri::spec_from_str(s@) == Err::<Seq<char>, ParseError>(e),
            },
    {
        proof {
            lemma_ascii_text_ascii_bytes(s@);
        }
        if !s.is_ascii() {
            return Err(ParseError::at_uri());
        }
        let bytes: &[u8] = s.as_bytes();
        let spans: Spans = match find_spans(bytes) {
            Some(spans) => spans,
            None => {
                return Err(ParseError::at_uri());
            },
        };
        let authority: AtIdentifier = match AtIdentifier::from_str(
            ascii_substring(s, 5, spans.authority_end),
        ) {
            Ok(id) => id,
            Err(_) => {
                return Err(ParseError::at_uri());
            },
        };
        let collection: Option<Nsid> = match spans.collection {
            None => None,
            Some((from, to)) => match Nsid::from_str(ascii_substring(s, from, to)) {
                Ok(c) => Some(c),
                Err(_) => {
                    return Err(ParseError::at_uri());
                },
            },
        };
        let rkey: Option<RecordKey> = match spans.rkey {
            None => None,
            Some((from, to)) => match RecordKey::from_str(ascii_substring(s, from, to)) {
                Ok(k) => Some(k),
                Err(_) => {
                    return Err(ParseError::at_uri());
                },
            },
        };
        let fragment: Option<String> = match spans.fragment {
            None => None,
            Some((from, to)) => Some(ascii_substring(s, from, to).to_owned()),
        };
        Ok(AtUri { text: s.to_owned(), authority, collection, rkey, fragment })
    }

    /// The text of the AT-URI. The grammar accepts it.
    pub fn as_str(&self) -> (res: &str)
        ensures
            res@ == self@,
            spec_is_valid_at_uri(res.spec_bytes()),
    {
        proof {
            use_type_invariant(self);
        }
        self.text.as_str()
    }

    /// The text of the AT-URI, as an owned string.
    pub fn to_string(&self) -> (res: String)
        ensures
            res@ == self@,
            spec_is_valid_at_uri(encode_utf8(res@)),
    {
        proof {
            use_type_invariant(self);
        }
        self.text.clone()
    }

    /// The authority: the DID or the handle whose text is the authority part
    /// of this AT-URI.
    pub fn authority(&self) -> (res: &AtIdentifier)
        ensures
            encode_utf8(res@) == uri_authority(encode_utf8(self@)),
            res is Did <==> spec_is_valid_did(uri_authority(encode_utf8(self@))),
    {
        proof {
            use_type_invariant(self);
        }
        &self.authority
    }

    /// The collection: the NSID whose text is the collection part of this
    /// AT-URI, where it has one.
    pub fn collection(&self) -> (res: Option<&Nsid>)
        ensures
            match res {
                Some(c) => uri_collection(encode_utf8(self@)) == Some(encode_utf8(c@)),
                None => uri_collection(encode_utf8(self@)) is None,
            },
    {
        proof {
            use_type_invariant(self);
        }
        self.collection.as_ref()
    }

    /// The record key whose text is the record-key part of this AT-URI, where
    /// it has one.
    pub fn rkey(&self) -> (res: Option<&RecordKey>)
        ensures
            match res {
                Some(k) => uri_rkey(encode_utf8(self@)) == Some(encode_utf8(k@)),
                None => uri_rkey(encode_utf8(self@)) is None,
            },
    {
        proof {
            use_type_invariant(self);
        }
        self.rkey.as_ref()
    }

    /// The fragment, without its `#`, where this AT-URI has one.
    pub fn fragment(&self) -> (res: Option<&str>)
        ensures
            match res {
                Some(f) => uri_fragment(encode_utf8(self@)) == Some(f.spec_bytes()),
                None => uri_fragment(encode_utf8(self@)) is None,
            },
    {
        proof {
            use_type_invariant(self);
        }
        match &self.fragment {
            Some(f) => Some(f.as_str()),
            None => None,
        }
    }
}

impl Clone for AtUri {
    fn clone(&self) -> (res: AtUri)
        ensures
            res@ == self@,
    {
        proof {
            use_type_invariant(self);
        }
        let collection: Option<Nsid> = match &self.collection {
            Some(c) => Some(c.clone()),
            None => None,
        };
        let rkey: Option<RecordKey> = match &self.rkey {
            Some(k) => Some(k.clone()),
            None => None,
        };
        let fragment: Option<String> = match &self.fragment {
            Some(f) => Some(f.clone()),
            None => None,
        };
        AtUri {
            text: self.text.clone(),
            authority: self.authority.clone(),
            collection,
            rkey,
            fragment,
        }
    }
}

impl PartialEq for AtUri {
    fn eq(&self, other: &AtUri) -> (res: bool) {
        self.text == other.text
    }
}

impl Eq for AtUri {}

impl vstd::std_specs::cmp::PartialEqSpecImpl for AtUri {
    open spec fn obeys_eq_spec() -> bool {
        true
    }

    open spec fn eq_spec(&self, other: &AtUri) -> bool {
        self@ == other@
    }
}

} // verus!
