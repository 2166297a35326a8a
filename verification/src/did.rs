//! DIDs: method-qualified, permanent account identifiers.

use vstd::prelude::*;
use vstd::string::StringSliceAdditionalSpecFns;
use vstd::utf8::encode_utf8;

use crate::error::ParseError;
use crate::scan::{
    ascii_substring, first_index, has_byte, head_of, is_alnum, is_ascii_bytes, is_digit, is_lower,
    lemma_ascii_text_ascii_bytes, lemma_first_index, spec_is_alnum, spec_is_digit, spec_is_lower,
    split_at_byte, tail_of,
};

verus! {

/// The byte `:`.
pub const COLON: u8 = 0x3a;

/// The byte `%`.
pub const PERCENT: u8 = 0x25;

/// The bytes of `did:`, with which every DID starts.
pub open spec fn did_prefix() -> Seq<u8> {
    seq![0x64u8, 0x69u8, 0x64u8, 0x3au8]
}

/// A byte of a method tag: a lower-case letter or a digit.
pub open spec fn spec_is_method_char(b: u8) -> bool {
    spec_is_lower(b) || spec_is_digit(b)
}

/// A byte of a method-specific identifier: an unreserved URI character
/// (a letter, a digit, `-`, `.`, `_`, `~`), the separator `:`, or `%`, which
/// starts a percent-encoded byte.
pub open spec fn spec_is_did_char(b: u8) -> bool {
    spec_is_alnum(b) || b == 0x2d || b == 0x2e || b == 0x5f || b == 0x7e || b == COLON || b
        == PERCENT
}

/// A method tag: one or more method bytes.
pub open spec fn spec_is_valid_method(s: Seq<u8>) -> bool {
    &&& s.len() >= 1
    &&& forall|i: int| 0 <= i < s.len() ==> spec_is_method_char(#[trigger] s[i])
}

/// A method-specific identifier: one or more identifier bytes, the last of
/// them neither `:` nor `%`.
pub open spec fn spec_is_valid_method_id(s: Seq<u8>) -> bool {
    &&& s.len() >= 1
    &&& forall|i: int| 0 <= i < s.len() ==> spec_is_did_char(#[trigger] s[i])
    &&& s[s.len() - 1] != COLON
    &&& s[s.len() - 1] != PERCENT
}

/// The method tag of a DID: what stands between the prefix and the first `:`
/// after it.
pub open spec fn did_method(s: Seq<u8>) -> Seq<u8> {
    head_of(s.subrange(4, s.len() as int), COLON)
}

/// The method-specific identifier of a DID: what follows the `:` that ends the
/// method tag.
pub open spec fn did_method_id(s: Seq<u8>) -> Seq<u8> {
    tail_of(s.subrange(4, s.len() as int), COLON)
}

/// The DID grammar: `did:`, a method tag, `:`, and a method-specific
/// identifier. The method tag ends at the first `:` after the prefix.
pub open spec fn spec_is_valid_did(s: Seq<u8>) -> bool {
    &&& s.len() >= 4
    &&& s.subrange(0, 4) == did_prefix()
    &&& has_byte(s.subrange(4, s.len() as int), COLON)
    &&& spec_is_valid_method(did_method(s))
    &&& spec_is_valid_method_id(did_method_id(s))
}

/// Every byte of a DID, those of the prefix and of the method tag too, is
/// one that may stand in a method-specific identifier.
pub proof fn lemma_did_charset(s: Seq<u8>)
    requires
        spec_is_valid_did(s),
    ensures
        forall|i: int| 0 <= i < s.len() ==> spec_is_did_char(#[trigger] s[i]),
{
    let rest = s.subrange(4, s.len() as int);
    lemma_first_index(rest, COLON);
    let f = first_index(rest, COLON);
    assert forall|i: int| 0 <= i < s.len() implies spec_is_did_char(#[trigger] s[i]) by {
        if i < 4 {
            assert(s[i] == s.subrange(0, 4)[i]);
        } else if i - 4 < f {
            assert(s[i] == did_method(s)[i - 4]);
        } else if i - 4 == f {
            assert(s[i] == rest[f]);
        } else {
            assert(s[i] == did_method_id(s)[i - 4 - f - 1]);
        }
    }
}

/// Every byte of a DID is an ASCII byte.
pub proof fn lemma_did_is_ascii(s: Seq<u8>)
    requires
        spec_is_valid_did(s),
    ensures
        is_ascii_bytes(s),
{
    lemma_did_charset(s);
    assert forall|i: int| 0 <= i < s.len() implies #[trigger] s[i] < 0x80 by {
        assert(spec_is_did_char(s[i]));
    }
}

/// Decides whether `b` may stand in a method tag.
pub fn is_method_char(b: u8) -> (res: bool)
    ensures
        res == spec_is_method_char(b),
{
    is_lower(b) || is_digit(b)
}

/// Decides whether `b` may stand in a method-specific identifier.
pub fn is_did_char(b: u8) -> (res: bool)
    ensures
        res == spec_is_did_char(b),
{
    is_alnum(b) || b == 0x2d || b == 0x2e || b == 0x5f || b == 0x7e || b == COLON || b == PERCENT
}

/// Decides whether `s` is a method tag.
pub fn is_valid_method(s: &[u8]) -> (res: bool)
    ensures
        res == spec_is_valid_method(s@),
{
    let n: usize = s.len();
    if n == 0 {
        return false;
    }
    let mut i: usize = 0;
    while i < n
        invariant
            n == s@.len(),
            i <= n,
            forall|j: int| 0 <= j < i ==> spec_is_method_char(#[trigger] s@[j]),
        decreases n - i,
    {
        if !is_method_char(s[i]) {
            return false;
        }
        i += 1;
    }
    true
}

/// Decides whether `s` is a method-specific identifier.
pub fn is_valid_method_id(s: &[u8]) -> (res: bool)
    ensures
        res == spec_is_valid_method_id(s@),
{
    let n: usize = s.len();
    if n == 0 {
        return false;
    }
    if s[n - 1] == COLON || s[n - 1] == PERCENT {
        return false;
    }
    let mut i: usize = 0;
    while i < n
        invariant
            n == s@.len(),
            i <= n,
            forall|j: int| 0 <= j < i ==> spec_is_did_char(#[trigger] s@[j]),
        decreases n - i,
    {
        if !is_did_char(s[i]) {
            return false;
        }
        i += 1;
    }
    true
}

/// Decides whether `s` is a DID.
pub fn is_valid_did(s: &[u8]) -> (res: bool)
    ensures
        res == spec_is_valid_did(s@),
{
    let n: usize = s.len();
    if n < 4 {
        return false;
    }
    if s[0] != 0x64 || s[1] != 0x69 || s[2] != 0x64 || s[3] != 0x3a {
        return false;
    }
    assert(s@.subrange(0, 4) =~= did_prefix());
    let rest: &[u8] = vstd::slice::slice_subrange(s, 4, n);
    match split_at_byte(rest, COLON) {
        Some((method, id)) => is_valid_method(method) && is_valid_method_id(id),
        None => false,
    }
}

/// A DID. A value holds a text that the DID grammar accepts.
#[derive(Debug)]
pub struct Did {
    text: String,
}

impl View for Did {
    type V = Seq<char>;

    /// The text of the DID.
    closed spec fn view(&self) -> Seq<char> {
        self.text@
    }
}

impl Did {
    #[verifier::type_invariant]
    spec fn inv(self) -> bool {
        spec_is_valid_did(encode_utf8(self.text@))
    }

    /// What parsing `text` gives: the text itself where the grammar accepts
    /// its bytes.
    pub open spec fn spec_from_str(text: Seq<char>) -> Result<Seq<char>, ParseError> {
        if spec_is_valid_did(encode_utf8(text)) {
            Ok(text)
        } else {
            Err(ParseError::Did)
        }
    }

    /// Parses a DID.
    pub fn from_str(s: &str) -> (res: Result<Did, ParseError>)
        ensures
            res is Ok <==> spec_is_valid_did(s.spec_bytes()),
            match res {
                Ok(v) => Did::spec_from_str(s@) == Ok::<Seq<char>, ParseError>(v@),
                Err(e) => Did::spec_from_str(s@) == Err::<Seq<char>, ParseError>(e),
            },
    {
        if is_valid_did(s.as_bytes()) {
            Ok(Did { text: s.to_owned() })
        } else {
            Err(ParseError::did())
        }
    }

    /// The text of the DID. The grammar accepts it.
    pub fn as_str(&self) -> (res: &str)
        ensures
            res@ == self@,
            spec_is_valid_did(res.spec_bytes()),
    {
        proof {
            use_type_invariant(self);
        }
        self.text.as_str()
    }

    /// The text of the DID, as an owned string.
    pub fn to_string(&self) -> (res: String)
        ensures
            res@ == self@,
            spec_is_valid_did(encode_utf8(res@)),
    {
        proof {
            use_type_invariant(self);
        }
        self.text.clone()
    }
}

impl Did {
    /// The method tag, such as `plc` or `web`.
    pub fn method(&self) -> (res: &str)
        ensures
            res.spec_bytes() == did_method(encode_utf8(self@)),
            spec_is_valid_method(res.spec_bytes()),
    {
        proof {
            use_type_invariant(self);
            lemma_did_is_ascii(encode_utf8(self.text@));
            lemma_ascii_text_ascii_bytes(self.text@);
        }
        let s: &str = self.text.as_str();
        let bytes: &[u8] = s.as_bytes();
        let rest: &[u8] = vstd::slice::slice_subrange(bytes, 4, bytes.len());
        proof {
            lemma_first_index(rest@, COLON);
        }
        match split_at_byte(rest, COLON) {
            Some((head, _)) => {
                let res: &str = ascii_substring(s, 4, 4 + head.len());
                assert(res.spec_bytes() =~= head@);
                res
            },
            None => s,
        }
    }

    /// The method-specific identifier: what follows the method tag and its
    /// `:`.
    pub fn method_id(&self) -> (res: &str)
        ensures
            res.spec_bytes() == did_method_id(encode_utf8(self@)),
            spec_is_valid_method_id(res.spec_bytes()),
    {
        proof {
            use_type_invariant(self);
            lemma_did_is_ascii(encode_utf8(self.text@));
            lemma_ascii_text_ascii_bytes(self.text@);
        }
        let s: &str = self.text.as_str();
        let bytes: &[u8] = s.as_bytes();
        let n: usize = bytes.len();
        let rest: &[u8] = vstd::slice::slice_subrange(bytes, 4, n);
        proof {
            lemma_first_index(rest@, COLON);
        }
        match split_at_byte(rest, COLON) {
            Some((head, tail)) => {
                let res: &str = ascii_substring(s, 4 + head.len() + 1, n);
                assert(res.spec_bytes() =~= tail@);
                res
            },
            None => s,
        }
    }
}

impl Clone for Did {
    fn clone(&self) -> (res: Did)
        ensures
            res@ == self@,
    {
        proof {
            use_type_invariant(self);
        }
        Did { text: self.text.clone() }
    }
}

impl PartialEq for Did {
    fn eq(&self, other: &Did) -> (res: bool) {
        self.text == other.text
    }
}

impl Eq for Did {}

impl vstd::std_specs::cmp::PartialEqSpecImpl for Did {
    open spec fn obeys_eq_spec() -> bool {
        true
    }

    open spec fn eq_spec(&self, other: &Did) -> bool {
        self@ == other@
    }
}

} // verus!
