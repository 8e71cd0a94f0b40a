//! Header and format-variant types.

use vstd::prelude::*;
use crate::sign_alg::{Algorithm, MaybeSigned, Unsigned};
use crate::encode::push_all;

verus! {

/// Marker for the three JWS wire shapes: compact, general, or flat.
pub trait JwsFormat {

}

/// No data: the extension slot of a header with no extra fields, and
/// the unprotected-header slot of the compact format.
pub struct Empty {}

impl Empty {
    /// The one value of this type.
    pub fn new() -> (r: Self) {
        Empty {  }
    }
}

/// Serialization collaborator for header extension fields: a header
/// type presents its caller-defined fields as the raw members of a
/// flat JSON object (no surrounding braces, empty for no fields), so
/// that they merge into the same object as `alg`.
pub trait HeaderData {
    /// The fields as raw JSON members.
    spec fn spec_members(&self) -> Seq<u8>;

    /// Writes the fields as raw JSON members.
    fn members(&self) -> (r: Vec<u8>)
        ensures
            r@ == self.spec_members(),
    ;
}

impl HeaderData for Empty {
    open spec fn spec_members(&self) -> Seq<u8> {
        Seq::empty()
    }

    fn members(&self) -> (r: Vec<u8>) {
        Vec::new()
    }
}

/// A pre-encoded run of JSON members, for callers whose extension
/// fields are already serialized.
pub struct RawMembers {
    bytes: Vec<u8>,
}

impl RawMembers {
    /// The members, e.g. `"kid":"a"` (one member, no braces).
    pub closed spec fn spec_bytes(&self) -> Seq<u8> {
        self.bytes@
    }

    /// Wraps pre-encoded JSON members.
    pub fn new(bytes: Vec<u8>) -> (r: Self)
        ensures
            r.spec_bytes() == bytes@,
    {
        RawMembers { bytes }
    }
}

impl HeaderData for RawMembers {
    open spec fn spec_members(&self) -> Seq<u8> {
        self.spec_bytes()
    }

    fn members(&self) -> (r: Vec<u8>) {
        let mut r: Vec<u8> = Vec::new();
        push_all(&mut r, self.bytes.as_slice());
        proof {
            assert(r@ =~= self.spec_members());
        }
        r
    }
}

/// Serialization collaborator for payloads: a payload type presents
/// the exact bytes that enter the signing input.
pub trait PayloadData {
    /// The payload's byte encoding.
    spec fn spec_bytes(&self) -> Seq<u8>;

    /// Writes the payload's byte encoding.
    fn bytes(&self) -> (r: Vec<u8>)
        ensures
            r@ == self.spec_bytes(),
    ;
}

impl PayloadData for Vec<u8> {
    open spec fn spec_bytes(&self) -> Seq<u8> {
        self@
    }

    fn bytes(&self) -> (r: Vec<u8>) {
        let mut r: Vec<u8> = Vec::new();
        push_all(&mut r, self.as_slice());
        proof {
            assert(r@ =~= self@);
        }
        r
    }
}

/// Protected header data: an optional algorithm identifier, unset
/// until signing completes, plus caller extension fields; included in
/// the signing input and serialized as one flat JSON object.
pub struct Protected<Phd> {
    pub(crate) alg: Option<Algorithm>,
    pub(crate) extra: Phd,
}

impl<Phd> Protected<Phd> {
    /// The algorithm identifier, if set.
    pub closed spec fn spec_alg(&self) -> Option<Algorithm> {
        self.alg
    }

    /// The caller extension fields.
    pub closed spec fn spec_extra(&self) -> Phd {
        self.extra
    }

    /// A protected header with no identifier yet.
    pub fn new(extra: Phd) -> (r: Self)
        ensures
            r.spec_alg() is None,
            r.spec_extra() == extra,
    {
        Protected { alg: None, extra }
    }

    /// Read access to the identifier.
    pub fn alg(&self) -> (r: &Option<Algorithm>)
        ensures
            *r == self.spec_alg(),
    {
        &self.alg
    }

    /// Read access to the extension fields.
    pub fn extra(&self) -> (r: &Phd)
        ensures
            *r == self.spec_extra(),
    {
        &self.extra
    }

    /// The same header with the identifier set: the signing operation
    /// stamps the signing algorithm into the protected header.
    pub(crate) fn with_alg(self, a: Algorithm) -> (r: Self)
        ensures
            r.spec_alg() == Some(a),
            r.spec_extra() == self.spec_extra(),
    {
        let Protected { alg: _, extra } = self;
        Protected { alg: Some(a), extra }
    }
}

/// Unprotected header data: caller extension fields only; present in
/// the flat and general formats and never part of the signing input.
pub struct Unprotected<Uhd> {
    pub(crate) extra: Uhd,
}

impl<Uhd> Unprotected<Uhd> {
    /// The caller extension fields.
    pub closed spec fn spec_extra(&self) -> Uhd {
        self.extra
    }

    /// An unprotected header from its extension fields.
    pub fn new(extra: Uhd) -> (r: Self)
        ensures
            r.spec_extra() == extra,
    {
        Unprotected { extra }
    }

    /// Read access to the extension fields.
    pub fn extra(&self) -> (r: &Uhd)
        ensures
            *r == self.spec_extra(),
    {
        &self.extra
    }
}

/// One signing unit: a header pair plus signature material whose type
/// witnesses the signing state.
pub struct Signature<Phd, Uhd, Alg: MaybeSigned> {
    pub(crate) protected: Protected<Phd>,
    pub(crate) unprotected: Unprotected<Uhd>,
    pub(crate) signature: Alg::SigData,
}

impl<Phd, Uhd, Alg: MaybeSigned> Signature<Phd, Uhd, Alg> {
    /// The protected header.
    pub closed spec fn spec_protected(&self) -> Protected<Phd> {
        self.protected
    }

    /// The unprotected header.
    pub closed spec fn spec_unprotected(&self) -> Unprotected<Uhd> {
        self.unprotected
    }

    /// The signature material.
    pub closed spec fn spec_sig(&self) -> Alg::SigData {
        self.signature
    }

    /// Read access to the protected header.
    pub fn protected(&self) -> (r: &Protected<Phd>)
        ensures
            *r == self.spec_protected(),
    {
        &self.protected
    }

    /// Read access to the unprotected header.
    pub fn unprotected(&self) -> (r: &Unprotected<Uhd>)
        ensures
            *r == self.spec_unprotected(),
    {
        &self.unprotected
    }

    /// Read access to the signature material.
    pub fn sig(&self) -> (r: &Alg::SigData)
        ensures
            *r == self.spec_sig(),
    {
        &self.signature
    }

    /// A record from its parts; only the signing protocol assembles
    /// records that carry material.
    pub(crate) fn from_parts(
        protected: Protected<Phd>,
        unprotected: Unprotected<Uhd>,
        signature: Alg::SigData,
    ) -> (r: Self)
        ensures
            r.spec_protected() == protected,
            r.spec_unprotected() == unprotected,
            r.spec_sig() == signature,
    {
        Signature { protected, unprotected, signature }
    }

    /// Decomposes a record into its parts.
    pub(crate) fn into_parts(self) -> (r: (Protected<Phd>, Unprotected<Uhd>, Alg::SigData))
        ensures
            r.0 == self.spec_protected(),
            r.1 == self.spec_unprotected(),
            r.2 == self.spec_sig(),
    {
        let Signature { protected, unprotected, signature } = self;
        (protected, unprotected, signature)
    }
}

impl<Phd, Uhd> Signature<Phd, Uhd, Unsigned> {
    /// An unsigned record from its header pair.
    pub fn new(protected: Protected<Phd>, unprotected: Unprotected<Uhd>) -> (r: Self)
        ensures
            r.spec_protected() == protected,
            r.spec_unprotected() == unprotected,
    {
        Signature { protected, unprotected, signature: () }
    }
}

/// Compact format: exactly one signature record whose unprotected
/// header is structurally absent.
pub struct Compact<Phd, Sign: MaybeSigned> {
    pub(crate) signature: Signature<Phd, Empty, Sign>,
}

impl<Phd, Sign: MaybeSigned> Compact<Phd, Sign> {
    /// The single signature record.
    pub closed spec fn spec_signature(&self) -> Signature<Phd, Empty, Sign> {
        self.signature
    }

    /// Read access to the single signature record.
    pub fn signature_record(&self) -> (r: &Signature<Phd, Empty, Sign>)
        ensures
            *r == self.spec_signature(),
    {
        &self.signature
    }

    /// A compact variant from its single record.
    pub(crate) fn from_record(signature: Signature<Phd, Empty, Sign>) -> (r: Self)
        ensures
            r.spec_signature() == signature,
    {
        Compact { signature }
    }

    /// Decomposes a compact variant into its single record.
    pub(crate) fn into_record(self) -> (r: Signature<Phd, Empty, Sign>)
        ensures
            r == self.spec_signature(),
    {
        self.signature
    }
}

impl<Phd> Compact<Phd, Unsigned> {
    /// An unsigned compact variant from its protected header.
    pub fn new(protected: Protected<Phd>) -> (r: Self)
        ensures
            r.spec_signature().spec_protected() == protected,
    {
        Compact { signature: Signature::new(protected, Unprotected::new(Empty {  })) }
    }
}

/// Flat format: exactly one signature record carrying both header
/// kinds.
pub struct Flat<Phd, Uhd, Sign: MaybeSigned> {
    pub(crate) signature: Signature<Phd, Uhd, Sign>,
}

impl<Phd, Uhd, Sign: MaybeSigned> Flat<Phd, Uhd, Sign> {
    /// The single signature record.
    pub closed spec fn spec_signature(&self) -> Signature<Phd, Uhd, Sign> {
        self.signature
    }

    /// Read access to the single signature record.
    pub fn signature_record(&self) -> (r: &Signature<Phd, Uhd, Sign>)
        ensures
            *r == self.spec_signature(),
    {
        &self.signature
    }

    /// A flat variant from its single record.
    pub(crate) fn from_record(signature: Signature<Phd, Uhd, Sign>) -> (r: Self)
        ensures
            r.spec_signature() == signature,
    {
        Flat { signature }
    }

    /// Decomposes a flat variant into its single record.
    pub(crate) fn into_record(self) -> (r: Signature<Phd, Uhd, Sign>)
        ensures
            r == self.spec_signature(),
    {
        self.signature
    }
}

impl<Phd, Uhd> Flat<Phd, Uhd, Unsigned> {
    /// An unsigned flat variant from its header pair.
    pub fn new(protected: Protected<Phd>, unprotected: Unprotected<Uhd>) -> (r: Self)
        ensures
            r.spec_signature().spec_protected() == protected,
            r.spec_signature().spec_unprotected() == unprotected,
    {
        Flat { signature: Signature::new(protected, unprotected) }
    }
}

/// General format: an ordered sequence of signature records, each with
/// both header kinds; supports multi-signature JWS.
pub struct General<Phd, Uhd, Sign: MaybeSigned> {
    pub(crate) signatures: Vec<Signature<Phd, Uhd, Sign>>,
}

impl<Phd, Uhd, Sign: MaybeSigned> General<Phd, Uhd, Sign> {
    /// The record sequence, in caller order.
    pub closed spec fn spec_signatures(&self) -> Seq<Signature<Phd, Uhd, Sign>> {
        self.signatures@
    }

    /// Read access to the record sequence.
    pub fn signature_records(&self) -> (r: &Vec<Signature<Phd, Uhd, Sign>>)
        ensures
            r@ == self.spec_signatures(),
    {
        &self.signatures
    }

    /// A general variant from its records, whose order is kept.
    pub(crate) fn from_records(signatures: Vec<Signature<Phd, Uhd, Sign>>) -> (r: Self)
        ensures
            r.spec_signatures() == signatures@,
    {
        General { signatures }
    }

    /// Decomposes a general variant into its records, in order.
    pub(crate) fn into_records(self) -> (r: Vec<Signature<Phd, Uhd, Sign>>)
        ensures
            r@ == self.spec_signatures(),
    {
        self.signatures
    }
}

impl<Phd, Uhd> General<Phd, Uhd, Unsigned> {
    /// An unsigned general variant from its records, whose order is
    /// kept.
    pub fn new(signatures: Vec<Signature<Phd, Uhd, Unsigned>>) -> (r: Self)
        ensures
            r.spec_signatures() == signatures@,
    {
        General { signatures }
    }
}

impl<Phd, Sign: MaybeSigned> JwsFormat for Compact<Phd, Sign> {

}

impl<Phd, Uhd, Sign: MaybeSigned> JwsFormat for Flat<Phd, Uhd, Sign> {

}

impl<Phd, Uhd, Sign: MaybeSigned> JwsFormat for General<Phd, Uhd, Sign> {

}

} // verus!
