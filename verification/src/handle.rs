//! Handles: domain-name-shaped account names.

use vstd::prelude::*;
use vstd::string::StringSliceAdditionalSpecFns;
use vstd::utf8::encode_utf8;

use crate::error::ParseError;
use crate::scan::{lemma_segments_nonempty, segments, split_at_byte};
use crate::{
    is_valid_domain_segment, is_valid_tld, spec_is_valid_domain_segment, spec_is_valid_tld,
};

verus! {

/// The byte `.`.
pub const DOT: u8 = 0x2e;

/// The handle grammar: two or more segments separated by `.`, the last a
/// top-level-domain segment and each of the others a domain segment.
pub open spec fn spec_is_valid_handle(s: Seq<u8>) -> bool {
    let segs = segments(s, DOT);
    &&& segs.len() >= 2
    &&& forall|i: int| 0 <= i < segs.len() - 1 ==> spec_is_valid_domain_segment(#[trigger] segs[i])
    &&& spec_is_valid_tld(segs[segs.len() - 1])
}

/// Decides whether `s` is a handle.
pub fn is_valid_handle(s: &[u8]) -> (res: bool)
    ensures
        res == spec_is_valid_handle(s@),
{
    let mut rest: &[u8] = s;
    let mut several: bool = false;
    let ghost mut done: Seq<Seq<u8>> = Seq::empty();
    loop
        invariant
            segments(s@, DOT) =~= done + segments(rest@, DOT),
            several == (done.len() >= 1),
            forall|i: int| 0 <= i < done.len() ==> spec_is_valid_domain_segment(#[trigger] done[i]),
        decreases rest@.len(),
    {
        proof {
            crate::scan::lemma_first_index(rest@, DOT);
        }
        match split_at_byte(rest, DOT) {
            Some((head, tail)) => {
                proof {
                    lemma_segments_nonempty(tail@, DOT);
                    assert(segments(s@, DOT)[done.len() as int] == head@);
                }
                if !is_valid_domain_segment(head) {
                    return false;
                }
                proof {
                    done = done.push(head@);
                }
                rest = tail;
                several = true;
            },
            None => {
                proof {
                    assert(segments(s@, DOT) =~= done.push(rest@));
                }
                return several && is_valid_tld(rest);
            },
        }
    }
}

/// A handle. A value holds a text that the handle grammar accepts.
#[derive(Debug)]
pub struct Handle {
    text: String,
}

impl View for Handle {
    type V = Seq<char>;

    /// The text of the handle.
    closed spec fn view(&self) -> Seq<char> {
        self.text@
    }
}

impl Handle {
    #[verifier::type_invariant]
    spec fn inv(self) -> bool {
        spec_is_valid_handle(encode_utf8(self.text@))
    }

    /// What parsing `text` gives: the text itself where the grammar accepts
    /// its bytes.
    pub open spec fn spec_from_str(text: Seq<char>) -> Result<Seq<char>, ParseError> {
        if spec_is_valid_handle(encode_utf8(text)) {
            Ok(text)
        } else {
            Err(ParseError::Handle)
        }
    }

    /// Parses a handle. The case of the letters is kept as given.
    pub fn from_str(s: &str) -> (res: Result<Handle, ParseError>)
        ensures
            res is Ok <==> spec_is_valid_handle(s.spec_bytes()),
            match res {
                Ok(h) => Handle::spec_from_str(s@) == Ok::<Seq<char>, ParseError>(h@),
                Err(e) => Handle::spec_from_str(s@) == Err::<Seq<char>, ParseError>(e),
            },
    {
        if is_valid_handle(s.as_bytes()) {
            Ok(Handle { text: s.to_owned() })
        } else {
            Err(ParseError::handle())
        }
    }

    /// The text of the handle. The grammar accepts it.
    pub fn as_str(&self) -> (res: &str)
        ensures
            res@ == self@,
            spec_is_valid_handle(res.spec_bytes()),
    {
        proof {
            use_type_invariant(self);
        }
        self.text.as_str()
    }

    /// The text of the handle, as an owned string.
    pub fn to_string(&self) -> (res: String)
        ensures
            res@ == self@,
            spec_is_valid_handle(encode_utf8(res@)),
    {
        proof {
            use_type_invariant(self);
        }
        self.text.clone()
    }
}

impl Clone for Handle {
    fn clone(&self) -> (res: Handle)
        ensures
            res@ == self@,
    {
        proof {
            use_type_invariant(self);
        }
        Handle { text: self.text.clone() }
    }
}

impl PartialEq for Handle {
    fn eq(&self, other: &Handle) -> (res: bool) {
        self.text == other.text
    }
}

impl Eq for Handle {}

impl vstd::std_specs::cmp::PartialEqSpecImpl for Handle {
    open spec fn obeys_eq_spec() -> bool {
        true
    }

    open spec fn eq_spec(&self, other: &Handle) -> bool {
        self@ == other@
    }
}

} // verus!
