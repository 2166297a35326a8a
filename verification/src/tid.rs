//! TIDs: timestamp identifiers of a fixed length, which sort by time.

use vstd::prelude::*;
use vstd::string::StringSliceAdditionalSpecFns;
use vstd::utf8::encode_utf8;

use crate::error::ParseError;
use crate::scan::{is_lower, spec_is_lower};

verus! {

/// The number of bytes in a TID.
pub const TID_LEN: usize = 13;

/// A byte of the sortable base32 alphabet: a digit from `2` to `7` or a
/// lower-case letter.
pub open spec fn spec_is_tid_char(b: u8) -> bool {
    (0x32 <= b <= 0x37) || spec_is_lower(b)
}

/// The TID grammar: exactly 13 bytes of the sortable base32 alphabet.
pub open spec fn spec_is_valid_tid(s: Seq<u8>) -> bool {
    &&& s.len() == TID_LEN
    &&& forall|i: int| 0 <= i < s.len() ==> spec_is_tid_char(#[trigger] s[i])
}

/// Decides whether `b` belongs to the sortable base32 alphabet.
pub fn is_tid_char(b: u8) -> (res: bool)
    ensures
        res == spec_is_tid_char(b),
{
    (0x32 <= b && b <= 0x37) || is_lower(b)
}

/// Decides whether `s` is a TID.
pub fn is_valid_tid(s: &[u8]) -> (res: bool)
    ensures
        res == spec_is_valid_tid(s@),
{
    let n: usize = s.len();
    if n != TID_LEN {
        return false;
    }
    let mut i: usize = 0;
    while i < n
        invariant
            n == s@.len(),
            i <= n,
            forall|j: int| 0 <= j < i ==> spec_is_tid_char(#[trigger] s@[j]),
        decreases n - i,
    {
        if !is_tid_char(s[i]) {
            return false;
        }
        i += 1;
    }
    true
}

/// A TID. A value holds a text that the TID grammar accepts.
#[derive(Debug)]
pub struct Tid {
    text: String,
}

impl View for Tid {
    type V = Seq<char>;

    /// The text of the TID.
    closed spec fn view(&self) -> Seq<char> {
        self.text@
    }
}

impl Tid {
    #[verifier::type_invariant]
    spec fn inv(self) -> bool {
        spec_is_valid_tid(encode_utf8(self.text@))
    }

    /// What parsing `text` gives: the text itself where the grammar accepts
    /// its bytes.
    pub open spec fn spec_from_str(text: Seq<char>) -> Result<Seq<char>, ParseError> {
        if spec_is_valid_tid(encode_utf8(text)) {
            Ok(text)
        } else {
            Err(ParseError::Tid)
        }
    }

    /// Parses a TID.
    pub fn from_str(s: &str) -> (res: Result<Tid, ParseError>)
        ensures
            res is Ok <==> spec_is_valid_tid(s.spec_bytes()),
            match res {
                Ok(v) => Tid::spec_from_str(s@) == Ok::<Seq<char>, ParseError>(v@),
                Err(e) => Tid::spec_from_str(s@) == Err::<Seq<char>, ParseError>(e),
            },
    {
        if is_valid_tid(s.as_bytes()) {
            Ok(Tid { text: s.to_owned() })
        } else {
            Err(ParseError::tid())
        }
    }

    /// The text of the TID. The grammar accepts it.
    pub fn as_str(&self) -> (res: &str)
        ensures
            res@ == self@,
            spec_is_valid_tid(res.spec_bytes()),
    {
        proof {
            use_type_invariant(self);
        }
        self.text.as_str()
    }

    /// The text of the TID, as an owned string.
    pub fn to_string(&self) -> (res: String)
        ensures
            res@ == self@,
            spec_is_valid_tid(encode_utf8(res@)),
    {
        proof {
            use_type_invariant(self);
        }
        self.text.clone()
    }
}

impl Clone for Tid {
    fn clone(&self) -> (res: Tid)
        ensures
            res@ == self@,
    {
        proof {
            use_type_invariant(self);
        }
        Tid { text: self.text.clone() }
    }
}

impl PartialEq for Tid {
    fn eq(&self, other: &Tid) -> (res: bool) {
        self.text == other.text
    }
}

impl Eq for Tid {}

impl vstd::std_specs::cmp::PartialEqSpecImpl for Tid {
    open spec fn obeys_eq_spec() -> bool {
        true
    }

    open spec fn eq_spec(&self, other: &Tid) -> bool {
        self@ == other@
    }
}

} // verus!
