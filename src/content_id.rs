//! Content identifiers, held by their canonical text form.
use vstd::prelude::*;

verus! {

/// A content identifier of the object store, held by its canonical text
/// form (base58btc for version 0, base32 for version 1). Two identifiers are
/// the same exactly when their text forms are.
#[derive(Debug)]
pub struct Cid {
    pub text: String,
}

impl View for Cid {
    type V = Seq<char>;

    open spec fn view(&self) -> Seq<char> {
        self.text@
    }
}

/// The text form of an optional identifier.
pub open spec fn link_view(l: Option<Cid>) -> Option<Seq<char>> {
    match l {
        Some(c) => Some(c@),
        None => None,
    }
}

/// The canonical text form of the identifier that a byte string encodes, or
/// `None` where it encodes none.
pub uninterp spec fn cid_text_of(b: Seq<u8>) -> Option<Seq<char>>;

/// Relies on `cid::Cid::try_from(&[u8])`, which decodes the binary form of
/// an identifier (an empty input does not decode), and on its `Display`,
/// which writes the canonical text form.
#[verifier::external_body]
fn cid_text(bytes: &[u8]) -> (r: Option<String>)
    ensures
        match r {
            Some(t) => cid_text_of(bytes@) == Some(t@),
            None => cid_text_of(bytes@) is None,
        },
        bytes@.len() == 0 ==> r is None,
{
    match <cid::Cid as std::convert::TryFrom<&[u8]>>::try_from(bytes) {
        Ok(c) => Some(c.to_string()),
        Err(_) => None,
    }
}

impl Cid {
    /// Decodes an identifier from its binary form; `None` where the bytes
    /// are not one.
    pub fn decode(bytes: &Vec<u8>) -> (r: Option<Cid>)
        ensures
            link_view(r) == cid_text_of(bytes@),
    {
        match cid_text(bytes.as_slice()) {
            Some(text) => Some(Cid { text }),
            None => None,
        }
    }

    /// Whether two identifiers are the same.
    pub fn same(&self, other: &Cid) -> (r: bool)
        ensures
            r == (self@ == other@),
    {
        self.text == other.text
    }

    /// A copy of the identifier.
    pub fn copy(&self) -> (r: Cid)
        ensures
            r@ == self@,
    {
        Cid { text: self.text.clone() }
    }
}

/// Whether two optional identifiers are the same (both absent, or both
/// present and the same).
pub fn same_link(a: &Option<Cid>, b: &Option<Cid>) -> (r: bool)
    ensures
        r == (link_view(*a) == link_view(*b)),
{
    match (a, b) {
        (Some(x), Some(y)) => x.same(y),
        (None, None) => true,
        _ => false,
    }
}

/// A copy of an optional identifier.
pub fn copy_link(a: &Option<Cid>) -> (r: Option<Cid>)
    ensures
        link_view(r) == link_view(*a),
{
    match a {
        Some(x) => Some(x.copy()),
        None => None,
    }
}

} // verus!
