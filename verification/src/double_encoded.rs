//! A value kept in its encoded form, with room for the decoded one.

use vstd::prelude::*;

verus! {

/// Wrapper around the encoded and decoded versions of a value. The encoded
/// form is what travels; the decoded form is kept beside it once it has
/// been worked out.
#[derive(Debug)]
pub struct DoubleEncoded<T> {
    encoded: Vec<u8>,
    decoded: Option<T>,
}

impl<T> View for DoubleEncoded<T> {
    type V = Seq<u8>;

    /// The encoded bytes.
    closed spec fn view(&self) -> Seq<u8> {
        self.encoded@
    }
}

impl<T> DoubleEncoded<T> {
    /// The decoded form, where it is kept beside the encoded one.
    pub closed spec fn decoded(&self) -> Option<T> {
        self.decoded
    }

    /// Whether the decoded form is kept beside the encoded one.
    pub open spec fn is_decoded(&self) -> bool {
        self.decoded() is Some
    }

    /// The value with the given encoded form and no decoded one.
    pub fn from_encoded(encoded: Vec<u8>) -> (r: DoubleEncoded<T>)
        ensures
            r@ == encoded@,
            !r.is_decoded(),
    {
        DoubleEncoded { encoded, decoded: None }
    }

    /// The same encoded form under another type of decoded value.
    pub fn into<S>(self) -> (r: DoubleEncoded<S>)
        ensures
            r@ == self@,
            !r.is_decoded(),
    {
        DoubleEncoded::from(self)
    }

    /// The encoded form of `e` under this type of decoded value: what was
    /// decoded under the other type is dropped.
    pub fn from<S>(e: DoubleEncoded<S>) -> (r: DoubleEncoded<T>)
        ensures
            r@ == e@,
            !r.is_decoded(),
    {
        DoubleEncoded { encoded: e.encoded, decoded: None }
    }

    /// The decoded form, if it is kept.
    pub fn as_ref(&self) -> (r: Option<&T>)
        ensures
            match r {
                Some(value) => self.decoded() == Some(*value),
                None => self.decoded() is None,
            },
    {
        self.decoded.as_ref()
    }

    /// The encoded form.
    pub fn encoded(&self) -> (r: &Vec<u8>)
        ensures
            r@ == self@,
    {
        &self.encoded
    }
}

} // verus!
