//! NSIDs: namespaced identifiers of schemas, a reversed domain name followed
//! by a name.

use vstd::prelude::*;
use vstd::string::StringSliceAdditionalSpecFns;
use vstd::utf8::encode_utf8;

use crate::error::ParseError;
use crate::handle::DOT;
use crate::scan::{
    ascii_substring, is_ascii_bytes, last_index_of, lemma_ascii_text_ascii_bytes,
    lemma_first_index, lemma_first_index_is, lemma_last_segment, lemma_segments_cover,
    lemma_segments_nonempty, segments, split_at_byte,
};
use crate::{
    is_valid_domain_segment, is_valid_nsid_name, is_valid_tld, spec_is_valid_domain_segment,
    spec_is_valid_nsid_name, spec_is_valid_tld,
};

verus! {

/// Largest number of bytes in an NSID.
pub const NSID_LEN_MAX: usize = 317;

/// The NSID grammar: at most 317 bytes, in three or more segments separated
/// by `.`. The last segment is the name, a name segment. Those before it are
/// the authority, a domain name written from its top-level domain down: the
/// first is a top-level-domain segment, each other a domain segment.
pub open spec fn spec_is_valid_nsid(s: Seq<u8>) -> bool {
    let segs = segments(s, DOT);
    &&& s.len() <= NSID_LEN_MAX
    &&& segs.len() >= 3
    &&& spec_is_valid_tld(segs[0])
    &&& forall|i: int| 1 <= i < segs.len() - 1 ==> spec_is_valid_domain_segment(#[trigger] segs[i])
    &&& spec_is_valid_nsid_name(segs[segs.len() - 1])
}

/// The name of an NSID: its last segment.
pub open spec fn nsid_name(s: Seq<u8>) -> Seq<u8> {
    segments(s, DOT).last()
}

/// The authority of an NSID: what stands before the `.` in front of the name.
pub open spec fn nsid_authority(s: Seq<u8>) -> Seq<u8> {
    s.subrange(0, s.len() - nsid_name(s).len() - 1)
}

/// Every byte of an NSID is an ASCII byte.
pub proof fn lemma_nsid_is_ascii(s: Seq<u8>)
    requires
        spec_is_valid_nsid(s),
    ensures
        is_ascii_bytes(s),
{
    let segs = segments(s, DOT);
    assert forall|i: int| 0 <= i < s.len() implies #[trigger] s[i] < 0x80 by {
        if s[i] != DOT {
            let at = lemma_segments_cover(s, DOT, i);
            let seg = segs[at.0];
            if at.0 == 0 {
                assert(spec_is_valid_tld(seg));
            } else if at.0 < segs.len() - 1 {
                assert(spec_is_valid_domain_segment(seg));
            } else {
                assert(spec_is_valid_nsid_name(seg));
            }
            assert(seg[at.1] < 0x80);
        }
    }
}

/// Decides whether `s` is an NSID.
pub fn is_valid_nsid(s: &[u8]) -> (res: bool)
    ensures
        res == spec_is_valid_nsid(s@),
{
    if s.len() > NSID_LEN_MAX {
        return false;
    }
    let mut rest: &[u8] = s;
    let mut count: usize = 0;
    let ghost mut done: Seq<Seq<u8>> = Seq::empty();
    loop
        invariant
            segments(s@, DOT) =~= done + segments(rest@, DOT),
            s@.len() <= NSID_LEN_MAX,
            count == done.len(),
            count + rest@.len() <= s@.len(),
            done.len() >= 1 ==> spec_is_valid_tld(done[0]),
            forall|i: int| 1 <= i < done.len() ==> spec_is_valid_domain_segment(#[trigger] done[i]),
        decreases rest@.len(),
    {
        proof {
            lemma_first_index(rest@, DOT);
        }
        match split_at_byte(rest, DOT) {
            Some((head, tail)) => {
                proof {
                    lemma_segments_nonempty(tail@, DOT);
                    assert(segments(s@, DOT)[done.len() as int] == head@);
                }
                let good: bool = if count == 0 {
                    is_valid_tld(head)
                } else {
                    is_valid_domain_segment(head)
                };
                if !good {
                    return false;
                }
                proof {
                    done = done.push(head@);
                }
                rest = tail;
                count += 1;
            },
            None => {
                proof {
                    assert(segments(s@, DOT) =~= done.push(rest@));
                }
                return count >= 2 && is_valid_nsid_name(rest);
            },
        }
    }
}

/// An NSID. A value holds a text that the NSID grammar accepts.
#[derive(Debug)]
pub struct Nsid {
    text: String,
}

impl View for Nsid {
    type V = Seq<char>;

    /// The text of the NSID.
    closed spec fn view(&self) -> Seq<char> {
        self.text@
    }
}

impl Nsid {
    #[verifier::type_invariant]
    spec fn inv(self) -> bool {
        spec_is_valid_nsid(encode_utf8(self.text@))
    }

    /// What parsing `text` gives: the text itself where the grammar accepts
    /// its bytes.
    pub open spec fn spec_from_str(text: Seq<char>) -> Result<Seq<char>, ParseError> {
        if spec_is_valid_nsid(encode_utf8(text)) {
            Ok(text)
        } else {
            Err(ParseError::Nsid)
        }
    }

    /// Parses an NSID.
    pub fn from_str(s: &str) -> (res: Result<Nsid, ParseError>)
        ensures
            res is Ok <==> spec_is_valid_nsid(s.spec_bytes()),
            match res {
                Ok(v) => Nsid::spec_from_str(s@) == Ok::<Seq<char>, ParseError>(v@),
                Err(e) => Nsid::spec_from_str(s@) == Err::<Seq<char>, ParseError>(e),
            },
    {
        if is_valid_nsid(s.as_bytes()) {
            Ok(Nsid { text: s.to_owned() })
        } else {
            Err(ParseError::nsid())
        }
    }

    /// The text of the NSID. The grammar accepts it.
    pub fn as_str(&self) -> (res: &str)
        ensures
            res@ == self@,
            spec_is_valid_nsid(res.spec_bytes()),
    {
        proof {
            use_type_invariant(self);
        }
        self.text.as_str()
    }

    /// The text of the NSID, as an owned string.
    pub fn to_string(&self) -> (res: String)
        ensures
            res@ == self@,
            spec_is_valid_nsid(encode_utf8(res@)),
    {
        proof {
            use_type_invariant(self);
        }
        self.text.clone()
    }
}

impl Nsid {
    /// The name: the last segment.
    pub fn name(&self) -> (res: &str)
        ensures
            res.spec_bytes() == nsid_name(encode_utf8(self@)),
            spec_is_valid_nsid_name(res.spec_bytes()),
    {
        proof {
            use_type_invariant(self);
            lemma_nsid_is_ascii(encode_utf8(self.text@));
            lemma_ascii_text_ascii_bytes(self.text@);
        }
        let s: &str = self.text.as_str();
        let bytes: &[u8] = s.as_bytes();
        match last_index_of(bytes, DOT) {
            Some(k) => {
                proof {
                    lemma_last_segment(bytes@, DOT, k as int);
                }
                ascii_substring(s, k + 1, bytes.len())
            },
            None => {
                proof {
                    lemma_first_index_is(bytes@, DOT, bytes@.len() as int);
                }
                s
            },
        }
    }

    /// The authority: the reversed domain name in front of the name, without
    /// the `.` between them.
    pub fn authority(&self) -> (res: &str)
        ensures
            res.spec_bytes() == nsid_authority(encode_utf8(self@)),
            res.spec_bytes() + seq![DOT] + nsid_name(encode_utf8(self@)) == encode_utf8(self@),
    {
        proof {
            use_type_invariant(self);
            lemma_nsid_is_ascii(encode_utf8(self.text@));
            lemma_ascii_text_ascii_bytes(self.text@);
        }
        let s: &str = self.text.as_str();
        let bytes: &[u8] = s.as_bytes();
        match last_index_of(bytes, DOT) {
            Some(k) => {
                proof {
                    lemma_last_segment(bytes@, DOT, k as int);
                }
                let res: &str = ascii_substring(s, 0, k);
                assert(res.spec_bytes() + seq![DOT] + nsid_name(bytes@) =~= bytes@);
                res
            },
            None => {
                proof {
                    lemma_first_index_is(bytes@, DOT, bytes@.len() as int);
                }
                s
            },
        }
    }
}

impl Clone for Nsid {
    fn clone(&self) -> (res: Nsid)
        ensures
            res@ == self@,
    {
        proof {
            use_type_invariant(self);
        }
        Nsid { text: self.text.clone() }
    }
}

impl PartialEq for Nsid {
    fn eq(&self, other: &Nsid) -> (res: bool) {
        self.text == other.text
    }
}

impl Eq for Nsid {}

impl vstd::std_specs::cmp::PartialEqSpecImpl for Nsid {
    open spec fn obeys_eq_spec() -> bool {
        true
    }

    open spec fn eq_spec(&self, other: &Nsid) -> bool {
        self@ == other@
    }
}

} // verus!
