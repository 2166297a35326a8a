//! Blobs: references to stored binary content.

use vstd::prelude::*;

use crate::cid_link::CidLink;
use crate::error::ParseError;

verus! {

/// A reference to stored binary content: the link to the content, the MIME
/// type that was declared for it, and its size in bytes. The MIME type is
/// not empty.
#[derive(Debug)]
pub struct Blob {
    link: CidLink,
    mime_type: String,
    size: u64,
}

impl Blob {
    #[verifier::type_invariant]
    spec fn inv(self) -> bool {
        self.mime_type@.len() > 0
    }

    /// The text of the CID of the content.
    pub closed spec fn spec_link(self) -> Seq<char> {
        self.link@
    }

    /// The declared MIME type.
    pub closed spec fn spec_mime_type(self) -> Seq<char> {
        self.mime_type@
    }

    /// The declared size in bytes.
    pub closed spec fn spec_size(self) -> u64 {
        self.size
    }

    /// Makes a blob reference of its three parts. An empty MIME type and a
    /// negative size are rejected.
    pub fn new(link: CidLink, mime_type: &str, size: i64) -> (res: Result<Blob, ParseError>)
        ensures
            res is Ok <==> mime_type@.len() > 0 && size >= 0,
            res matches Ok(b) ==> b.spec_link() == link@ && b.spec_mime_type() == mime_type@
                && b.spec_size() == size,
            res matches Err(e) ==> e == ParseError::Blob,
    {
        if mime_type.is_empty() || size < 0 {
            return Err(ParseError::blob());
        }
        Ok(Blob { link, mime_type: mime_type.to_owned(), size: size as u64 })
    }

    /// The link to the content.
    pub fn link(&self) -> (res: &CidLink)
        ensures
            res@ == self.spec_link(),
    {
        &self.link
    }

    /// The declared MIME type. It is not empty.
    pub fn mime_type(&self) -> (res: &str)
        ensures
            res@ == self.spec_mime_type(),
            res@.len() > 0,
    {
        proof {
            use_type_invariant(self);
        }
        self.mime_type.as_str()
    }

    /// The declared size in bytes.
    pub fn size(&self) -> (res: u64)
        ensures
            res == self.spec_size(),
    {
        self.size
    }
}

impl Clone for Blob {
    fn clone(&self) -> (res: Blob)
        ensures
            res.spec_link() == self.spec_link(),
            res.spec_mime_type() == self.spec_mime_type(),
            res.spec_size() == self.spec_size(),
    {
        proof {
            use_type_invariant(self);
        }
        Blob { link: self.link.clone(), mime_type: self.mime_type.clone(), size: self.size }
    }
}

} // verus!
