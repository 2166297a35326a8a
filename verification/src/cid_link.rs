//! CIDs: references to content by its hash, written as multibase text.

use vstd::prelude::*;

use crate::error::ParseError;

verus! {

/// The text that the `cid` crate writes for the CID that it reads from
/// `text`: `None` where it reads none.
pub uninterp spec fn cid_rewritten(text: Seq<char>) -> Option<Seq<char>>;

/// Reads `s` with `cid::Cid::try_from` and writes the CID that was read with
/// its `to_string`, which encodes a CID of version 0 in base58btc and one of
/// version 1 in lower-case base32. The contract only names what comes back:
/// `cid_rewritten` of the text.
#[verifier::external_body]
fn rewrite_cid(s: &str) -> (res: Option<String>)
    ensures
        match res {
            Some(t) => cid_rewritten(s@) == Some(t@),
            None => cid_rewritten(s@) is None,
        },
{
    match ::cid::Cid::try_from(s) {
        Ok(c) => Some(c.to_string()),
        Err(_) => None,
    }
}

/// The CID grammar: the text is read as a CID, and that CID is written as
/// the very same text. A text that is read as a CID but written otherwise,
/// such as one in another base, is rejected.
pub open spec fn spec_is_valid_cid(text: Seq<char>) -> bool {
    cid_rewritten(text) == Some(text)
}

/// A CID as text. A value holds a text that the CID grammar accepts.
#[derive(Debug)]
pub struct CidString {
    text: String,
}

impl View for CidString {
    type V = Seq<char>;

    /// The text of the CID.
    closed spec fn view(&self) -> Seq<char> {
        self.text@
    }
}

impl CidString {
    #[verifier::type_invariant]
    spec fn inv(self) -> bool {
        spec_is_valid_cid(self.text@)
    }

    /// What parsing `text` gives, where reading and writing it again gave
    /// `rewritten`: the text itself where it came back unchanged.
    pub open spec fn spec_checked(text: Seq<char>, rewritten: Option<Seq<char>>) -> Result<
        Seq<char>,
        ParseError,
    > {
        if rewritten == Some(text) {
            Ok(text)
        } else {
            Err(ParseError::Cid)
        }
    }

    /// Accepts `s` as a CID where `rewritten`, the text that came back from
    /// reading `s` and writing it again, is `s` itself.
    pub fn checked(s: &str, rewritten: Option<String>) -> (res: Result<CidString, ParseError>)
        requires
            match rewritten {
                Some(t) => cid_rewritten(s@) == Some(t@),
                None => cid_rewritten(s@) is None,
            },
        ensures
            res is Ok <==> (rewritten matches Some(t) && t@ == s@),
            res matches Ok(c) ==> c@ == s@,
            res matches Err(e) ==> e == ParseError::Cid,
    {
        match rewritten {
            Some(text) => {
                if text == s.to_owned() {
                    Ok(CidString { text })
                } else {
                    Err(ParseError::cid())
                }
            },
            None => Err(ParseError::cid()),
        }
    }

    /// Parses a CID.
    pub fn from_str(s: &str) -> (res: Result<CidString, ParseError>)
        ensures
            res is Ok <==> spec_is_valid_cid(s@),
            match res {
                Ok(c) => CidString::spec_checked(s@, cid_rewritten(s@)) == Ok::<
                    Seq<char>,
                    ParseError,
                >(c@),
                Err(e) => CidString::spec_checked(s@, cid_rewritten(s@)) == Err::<
                    Seq<char>,
                    ParseError,
                >(e),
            },
    {
        CidString::checked(s, rewrite_cid(s))
    }

    /// The text of the CID. The grammar accepts it.
    pub fn as_str(&self) -> (res: &str)
        ensures
            res@ == self@,
            spec_is_valid_cid(res@),
    {
        proof {
            use_type_invariant(self);
        }
        self.text.as_str()
    }

    /// The text of the CID, as an owned string.
    pub fn to_string(&self) -> (res: String)
        ensures
            res@ == self@,
            spec_is_valid_cid(res@),
    {
        proof {
            use_type_invariant(self);
        }
        self.text.clone()
    }
}

impl Clone for CidString {
    fn clone(&self) -> (res: CidString)
        ensures
            res@ == self@,
    {
        proof {
            use_type_invariant(self);
        }
        CidString { text: self.text.clone() }
    }
}

impl PartialEq for CidString {
    fn eq(&self, other: &CidString) -> (res: bool) {
        self.text == other.text
    }
}

impl Eq for CidString {}

impl vstd::std_specs::cmp::PartialEqSpecImpl for CidString {
    open spec fn obeys_eq_spec() -> bool {
        true
    }

    open spec fn eq_spec(&self, other: &CidString) -> bool {
        self@ == other@
    }
}

/// A link to content by its CID, as it stands in a record.
#[derive(Debug)]
pub struct CidLink {
    pub cid: CidString,
}

impl View for CidLink {
    type V = Seq<char>;

    /// The text of the CID that the link holds.
    open spec fn view(&self) -> Seq<char> {
        self.cid@
    }
}

impl CidLink {
    /// Parses the CID of a link.
    pub fn from_str(s: &str) -> (res: Result<CidLink, ParseError>)
        ensures
            res is Ok <==> spec_is_valid_cid(s@),
            res matches Ok(link) ==> link@ == s@,
            res matches Err(e) ==> e == ParseError::Cid,
    {
        match CidString::from_str(s) {
            Ok(cid) => Ok(CidLink { cid }),
            Err(e) => Err(e),
        }
    }

    /// The text of the CID that the link holds. The grammar accepts it.
    pub fn as_str(&self) -> (res: &str)
        ensures
            res@ == self@,
            spec_is_valid_cid(res@),
    {
        self.cid.as_str()
    }

    /// The text of the CID that the link holds, as an owned string.
    pub fn to_string(&self) -> (res: String)
        ensures
            res@ == self@,
            spec_is_valid_cid(res@),
    {
        self.cid.to_string()
    }
}

impl Clone for CidLink {
    fn clone(&self) -> (res: CidLink)
        ensures
            res@ == self@,
    {
        CidLink { cid: self.cid.clone() }
    }
}

impl PartialEq for CidLink {
    fn eq(&self, other: &CidLink) -> (res: bool) {
        self.cid == other.cid
    }
}

impl Eq for CidLink {}

impl vstd::std_specs::cmp::PartialEqSpecImpl for CidLink {
    open spec fn obeys_eq_spec() -> bool {
        true
    }

    open spec fn eq_spec(&self, other: &CidLink) -> bool {
        self@ == other@
    }
}

} // verus!
