//! Record keys: the names of records within a collection.

use vstd::prelude::*;
use vstd::string::StringSliceAdditionalSpecFns;
use vstd::utf8::encode_utf8;

use crate::error::ParseError;
use crate::scan::{is_alnum, spec_is_alnum};

verus! {

/// Largest number of bytes in a record key.
pub const RECORD_KEY_LEN_MAX: usize = 512;

/// A byte of a record key: a letter, a digit, or one of `.`, `-`, `_`, `:`,
/// `~`.
pub open spec fn spec_is_record_key_char(b: u8) -> bool {
    spec_is_alnum(b) || b == 0x2e || b == 0x2d || b == 0x5f || b == 0x3a || b == 0x7e
}

/// The reserved key `.`.
pub open spec fn reserved_dot() -> Seq<u8> {
    seq![0x2eu8]
}

/// The reserved key `..`.
pub open spec fn reserved_dot_dot() -> Seq<u8> {
    seq![0x2eu8, 0x2eu8]
}

/// The record-key grammar: 1 to 512 record-key bytes, and neither `.` nor
/// `..`.
pub open spec fn spec_is_valid_record_key(s: Seq<u8>) -> bool {
    &&& 1 <= s.len() <= RECORD_KEY_LEN_MAX
    &&& forall|i: int| 0 <= i < s.len() ==> spec_is_record_key_char(#[trigger] s[i])
    &&& s != reserved_dot()
    &&& s != reserved_dot_dot()
}

/// Decides whether `b` may stand in a record key.
pub fn is_record_key_char(b: u8) -> (res: bool)
    ensures
        res == spec_is_record_key_char(b),
{
    is_alnum(b) || b == 0x2e || b == 0x2d || b == 0x5f || b == 0x3a || b == 0x7e
}

/// Decides whether `s` is a record key.
pub fn is_valid_record_key(s: &[u8]) -> (res: bool)
    ensures
        res == spec_is_valid_record_key(s@),
{
    let n: usize = s.len();
    if n < 1 || n > RECORD_KEY_LEN_MAX {
        return false;
    }
    if n == 1 && s[0] == 0x2e {
        assert(s@ =~= reserved_dot());
        return false;
    }
    if n == 2 && s[0] == 0x2e && s[1] == 0x2e {
        assert(s@ =~= reserved_dot_dot());
        return false;
    }
    proof {
        if s@ == reserved_dot() {
            assert(s@[0] == reserved_dot()[0]);
        }
        if s@ == reserved_dot_dot() {
            assert(s@[0] == reserved_dot_dot()[0]);
            assert(s@[1] == reserved_dot_dot()[1]);
        }
    }
    let mut i: usize = 0;
    while i < n
        invariant
            n == s@.len(),
            i <= n,
            forall|j: int| 0 <= j < i ==> spec_is_record_key_char(#[trigger] s@[j]),
        decreases n - i,
    {
        if !is_record_key_char(s[i]) {
            return false;
        }
        i += 1;
    }
    true
}

/// A record key. A value holds a text that the record-key grammar accepts.
#[derive(Debug)]
pub struct RecordKey {
    text: String,
}

impl View for RecordKey {
    type V = Seq<char>;

    /// The text of the record key.
    closed spec fn view(&self) -> Seq<char> {
        self.text@
    }
}

impl RecordKey {
    #[verifier::type_invariant]
    spec fn inv(self) -> bool {
        spec_is_valid_record_key(encode_utf8(self.text@))
    }

    /// What parsing `text` gives: the text itself where the grammar accepts
    /// its bytes.
    pub open spec fn spec_from_str(text: Seq<char>) -> Result<Seq<char>, ParseError> {
        if spec_is_valid_record_key(encode_utf8(text)) {
            Ok(text)
        } else {
            Err(ParseError::RecordKey)
        }
    }

    /// Parses a record key.
    pub fn from_str(s: &str) -> (res: Result<RecordKey, ParseError>)
        ensures
            res is Ok <==> spec_is_valid_record_key(s.spec_bytes()),
            match res {
                Ok(v) => RecordKey::spec_from_str(s@) == Ok::<Seq<char>, ParseError>(v@),
                Err(e) => RecordKey::spec_from_str(s@) == Err::<Seq<char>, ParseError>(e),
            },
    {
        if is_valid_record_key(s.as_bytes()) {
            Ok(RecordKey { text: s.to_owned() })
        } else {
            Err(ParseError::record_key())
        }
    }

    /// The text of the record key. The grammar accepts it.
    pub fn as_str(&self) -> (res: &str)
        ensures
            res@ == self@,
            spec_is_valid_record_key(res.spec_bytes()),
    {
        proof {
            use_type_invariant(self);
        }
        self.text.as_str()
    }

    /// The text of the record key, as an owned string.
    pub fn to_string(&self) -> (res: String)
        ensures
            res@ == self@,
            spec_is_valid_record_key(encode_utf8(res@)),
    {
        proof {
            use_type_invariant(self);
        }
        self.text.clone()
    }
}

impl Clone for RecordKey {
    fn clone(&self) -> (res: RecordKey)
        ensures
            res@ == self@,
    {
        proof {
            use_type_invariant(self);
        }
        RecordKey { text: self.text.clone() }
    }
}

impl PartialEq for RecordKey {
    fn eq(&self, other: &RecordKey) -> (res: bool) {
        self.text == other.text
    }
}

impl Eq for RecordKey {}

impl vstd::std_specs::cmp::PartialEqSpecImpl for RecordKey {
    open spec fn obeys_eq_spec() -> bool {
        true
    }

    open spec fn eq_spec(&self, other: &RecordKey) -> bool {
        self@ == other@
    }
}

} // verus!
