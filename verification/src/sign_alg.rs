//! Algorithm identifiers and the signing-backend contract.

use vstd::prelude::*;
use crate::encode::bytes_eq;

verus! {

/// The RFC 7515 section 3.1 algorithm identifiers, as a closed enumeration.
#[derive(Copy, Clone, Debug, PartialEq, Eq, Structural)]
pub enum Algorithm {
    /// EdDSA signature algorithms
    EdDsa,
    /// ECDSA using P-256 and SHA-256
    Es256,
    /// ECDSA using secp256k1 curve and SHA-256
    Es256K,
    /// ECDSA using P-384 and SHA-384
    Es384,
    /// ECDSA using P-521 and SHA-512
    Es512,
    /// HMAC using SHA-256
    Hs256,
    /// HMAC using SHA-384
    Hs384,
    /// HMAC using SHA-512
    Hs512,
    /// RSASSA-PSS using SHA-256 and MGF1 with SHA-256
    Ps256,
    /// RSASSA-PSS using SHA-384 and MGF1 with SHA-384
    Ps384,
    /// RSASSA-PSS using SHA-512 and MGF1 with SHA-512
    Ps512,
    /// RSASSA-PKCS1-v1_5 using SHA-256
    Rs256,
    /// RSASSA-PKCS1-v1_5 using SHA-384
    Rs384,
    /// RSASSA-PKCS1-v1_5 using SHA-512
    Rs512,
    /// No digital signature or MAC performed; its wire token is `"none"`.
    ///
    /// Named `Null` so it does not collide with `Option::None`.
    Null,
}

/// The exact wire token of an algorithm identifier, as ASCII bytes:
/// uppercase except `EdDSA` and `none`.
pub open spec fn spec_token(a: Algorithm) -> Seq<u8> {
    match a {
        Algorithm::EdDsa => seq![('E' as u8), ('d' as u8), ('D' as u8), ('S' as u8), ('A' as u8)],
        Algorithm::Es256 => seq![('E' as u8), ('S' as u8), ('2' as u8), ('5' as u8), ('6' as u8)],
        Algorithm::Es256K => seq![('E' as u8), ('S' as u8), ('2' as u8), ('5' as u8), ('6' as u8), ('K' as u8)],
        Algorithm::Es384 => seq![('E' as u8), ('S' as u8), ('3' as u8), ('8' as u8), ('4' as u8)],
        Algorithm::Es512 => seq![('E' as u8), ('S' as u8), ('5' as u8), ('1' as u8), ('2' as u8)],
        Algorithm::Hs256 => seq![('H' as u8), ('S' as u8), ('2' as u8), ('5' as u8), ('6' as u8)],
        Algorithm::Hs384 => seq![('H' as u8), ('S' as u8), ('3' as u8), ('8' as u8), ('4' as u8)],
        Algorithm::Hs512 => seq![('H' as u8), ('S' as u8), ('5' as u8), ('1' as u8), ('2' as u8)],
        Algorithm::Ps256 => seq![('P' as u8), ('S' as u8), ('2' as u8), ('5' as u8), ('6' as u8)],
        Algorithm::Ps384 => seq![('P' as u8), ('S' as u8), ('3' as u8), ('8' as u8), ('4' as u8)],
        Algorithm::Ps512 => seq![('P' as u8), ('S' as u8), ('5' as u8), ('1' as u8), ('2' as u8)],
        Algorithm::Rs256 => seq![('R' as u8), ('S' as u8), ('2' as u8), ('5' as u8), ('6' as u8)],
        Algorithm::Rs384 => seq![('R' as u8), ('S' as u8), ('3' as u8), ('8' as u8), ('4' as u8)],
        Algorithm::Rs512 => seq![('R' as u8), ('S' as u8), ('5' as u8), ('1' as u8), ('2' as u8)],
        Algorithm::Null => seq![('n' as u8), ('o' as u8), ('n' as u8), ('e' as u8)],
    }
}

/// Parsing of a wire token back to its identifier: exactly the fifteen
/// tokens of [`spec_token`] parse, everything else is rejected.
pub open spec fn spec_parse_token(s: Seq<u8>) -> Option<Algorithm> {
    if s == spec_token(Algorithm::EdDsa) {
        Some(Algorithm::EdDsa)
    } else if s == spec_token(Algorithm::Es256) {
        Some(Algorithm::Es256)
    } else if s == spec_token(Algorithm::Es256K) {
        Some(Algorithm::Es256K)
    } else if s == spec_token(Algorithm::Es384) {
        Some(Algorithm::Es384)
    } else if s == spec_token(Algorithm::Es512) {
        Some(Algorithm::Es512)
    } else if s == spec_token(Algorithm::Hs256) {
        Some(Algorithm::Hs256)
    } else if s == spec_token(Algorithm::Hs384) {
        Some(Algorithm::Hs384)
    } else if s == spec_token(Algorithm::Hs512) {
        Some(Algorithm::Hs512)
    } else if s == spec_token(Algorithm::Ps256) {
        Some(Algorithm::Ps256)
    } else if s == spec_token(Algorithm::Ps384) {
        Some(Algorithm::Ps384)
    } else if s == spec_token(Algorithm::Ps512) {
        Some(Algorithm::Ps512)
    } else if s == spec_token(Algorithm::Rs256) {
        Some(Algorithm::Rs256)
    } else if s == spec_token(Algorithm::Rs384) {
        Some(Algorithm::Rs384)
    } else if s == spec_token(Algorithm::Rs512) {
        Some(Algorithm::Rs512)
    } else if s == spec_token(Algorithm::Null) {
        Some(Algorithm::Null)
    } else {
        None
    }
}

impl Algorithm {
    /// The wire token of this identifier, e.g. `b"HS256"`, `b"none"`.
    pub fn token(self) -> (t: Vec<u8>)
        ensures
            t@ == spec_token(self),
    {
        match self {
            Algorithm::EdDsa => vec![('E' as u8), ('d' as u8), ('D' as u8), ('S' as u8), ('A' as u8)],
            Algorithm::Es256 => vec![('E' as u8), ('S' as u8), ('2' as u8), ('5' as u8), ('6' as u8)],
            Algorithm::Es256K => vec![('E' as u8), ('S' as u8), ('2' as u8), ('5' as u8), ('6' as u8), ('K' as u8)],
            Algorithm::Es384 => vec![('E' as u8), ('S' as u8), ('3' as u8), ('8' as u8), ('4' as u8)],
            Algorithm::Es512 => vec![('E' as u8), ('S' as u8), ('5' as u8), ('1' as u8), ('2' as u8)],
            Algorithm::Hs256 => vec![('H' as u8), ('S' as u8), ('2' as u8), ('5' as u8), ('6' as u8)],
            Algorithm::Hs384 => vec![('H' as u8), ('S' as u8), ('3' as u8), ('8' as u8), ('4' as u8)],
            Algorithm::Hs512 => vec![('H' as u8), ('S' as u8), ('5' as u8), ('1' as u8), ('2' as u8)],
            Algorithm::Ps256 => vec![('P' as u8), ('S' as u8), ('2' as u8), ('5' as u8), ('6' as u8)],
            Algorithm::Ps384 => vec![('P' as u8), ('S' as u8), ('3' as u8), ('8' as u8), ('4' as u8)],
            Algorithm::Ps512 => vec![('P' as u8), ('S' as u8), ('5' as u8), ('1' as u8), ('2' as u8)],
            Algorithm::Rs256 => vec![('R' as u8), ('S' as u8), ('2' as u8), ('5' as u8), ('6' as u8)],
            Algorithm::Rs384 => vec![('R' as u8), ('S' as u8), ('3' as u8), ('8' as u8), ('4' as u8)],
            Algorithm::Rs512 => vec![('R' as u8), ('S' as u8), ('5' as u8), ('1' as u8), ('2' as u8)],
            Algorithm::Null => vec![('n' as u8), ('o' as u8), ('n' as u8), ('e' as u8)],
        }
    }

    /// Parses a wire token; returns `None` on anything but the fifteen
    /// exact RFC tokens (parsing is case-sensitive).
    pub fn parse_token(s: &[u8]) -> (r: Option<Algorithm>)
        ensures
            r == spec_parse_token(s@),
    {
        let all: [Algorithm; 15] = [
            Algorithm::EdDsa,
            Algorithm::Es256,
            Algorithm::Es256K,
            Algorithm::Es384,
            Algorithm::Es512,
            Algorithm::Hs256,
            Algorithm::Hs384,
            Algorithm::Hs512,
            Algorithm::Ps256,
            Algorithm::Ps384,
            Algorithm::Ps512,
            Algorithm::Rs256,
            Algorithm::Rs384,
            Algorithm::Rs512,
            Algorithm::Null,
        ];
        let mut i: usize = 0;
        while i < 15
            invariant
                i <= 15,
                all@ == spec_all_algorithms(),
                forall|j: int| 0 <= j < i ==> s@ != spec_token(all@[j]),
            decreases 15 - i,
        {
            let t = all[i].token();
            if bytes_eq(s, t.as_slice()) {
                proof {
                    lemma_parse_of_token(all@[i as int]);
                    lemma_token_injective();
                }
                return Some(all[i]);
            }
            i += 1;
        }
        proof {
            assert forall|a: Algorithm| spec_parse_token(s@) != Some(a) by {
                lemma_all_algorithms_complete(a);
                let j = choose|j: int|
                    0 <= j < 15 && spec_all_algorithms()[j] == a;
                assert(s@ != spec_token(spec_all_algorithms()[j]));
            }
        }
        None
    }
}

/// All fifteen identifiers, in declaration order.
pub open spec fn spec_all_algorithms() -> Seq<Algorithm> {
    seq![
        Algorithm::EdDsa,
        Algorithm::Es256,
        Algorithm::Es256K,
        Algorithm::Es384,
        Algorithm::Es512,
        Algorithm::Hs256,
        Algorithm::Hs384,
        Algorithm::Hs512,
        Algorithm::Ps256,
        Algorithm::Ps384,
        Algorithm::Ps512,
        Algorithm::Rs256,
        Algorithm::Rs384,
        Algorithm::Rs512,
        Algorithm::Null,
    ]
}

/// Every identifier occurs in [`spec_all_algorithms`].
proof fn lemma_all_algorithms_complete(a: Algorithm)
    ensures
        exists|j: int| 0 <= j < 15 && spec_all_algorithms()[j] == a,
{
    match a {
        Algorithm::EdDsa => assert(spec_all_algorithms()[0] == a),
        Algorithm::Es256 => assert(spec_all_algorithms()[1] == a),
        Algorithm::Es256K => assert(spec_all_algorithms()[2] == a),
        Algorithm::Es384 => assert(spec_all_algorithms()[3] == a),
        Algorithm::Es512 => assert(spec_all_algorithms()[4] == a),
        Algorithm::Hs256 => assert(spec_all_algorithms()[5] == a),
        Algorithm::Hs384 => assert(spec_all_algorithms()[6] == a),
        Algorithm::Hs512 => assert(spec_all_algorithms()[7] == a),
        Algorithm::Ps256 => assert(spec_all_algorithms()[8] == a),
        Algorithm::Ps384 => assert(spec_all_algorithms()[9] == a),
        Algorithm::Ps512 => assert(spec_all_algorithms()[10] == a),
        Algorithm::Rs256 => assert(spec_all_algorithms()[11] == a),
        Algorithm::Rs384 => assert(spec_all_algorithms()[12] == a),
        Algorithm::Rs512 => assert(spec_all_algorithms()[13] == a),
        Algorithm::Null => assert(spec_all_algorithms()[14] == a),
    }
}

/// Distinct identifiers have distinct wire tokens.
pub proof fn lemma_token_injective()
    ensures
        forall|a: Algorithm, b: Algorithm|
            a != b ==> #[trigger] spec_token(a) != #[trigger] spec_token(b),
{
    assert forall|a: Algorithm, b: Algorithm| a != b implies #[trigger] spec_token(
        a,
    ) != #[trigger] spec_token(b) by {
        if spec_token(a).len() == spec_token(b).len() {
            assert(spec_token(a)[0] == spec_token(a)[0]);
            assert(spec_token(b)[0] == spec_token(b)[0]);
            assert(spec_token(a)[1] == spec_token(a)[1]);
            assert(spec_token(b)[1] == spec_token(b)[1]);
            assert(spec_token(a)[2] == spec_token(a)[2]);
            assert(spec_token(b)[2] == spec_token(b)[2]);
            assert(spec_token(a)[3] == spec_token(a)[3]);
            assert(spec_token(b)[3] == spec_token(b)[3]);
        }
    }
}

/// No wire token contains a quote byte, so a token can be delimited by
/// the quotes around it.
pub proof fn lemma_token_no_quote(a: Algorithm)
    ensures
        forall|i: int| 0 <= i < spec_token(a).len() ==> spec_token(a)[i] != 34,
{
    let t = spec_token(a);
    assert forall|i: int| 0 <= i < t.len() implies t[i] != 34 by {
        assert(t[0] != 34);
        assert(t[1] != 34);
        assert(t[2] != 34);
        assert(t[3] != 34);
        if t.len() > 4 {
            assert(t[4] != 34);
        }
        if t.len() > 5 {
            assert(t[5] != 34);
        }
    }
}

/// Token round trip: each of the fifteen identifiers parses back from
/// its own wire token.
pub proof fn lemma_parse_of_token(a: Algorithm)
    ensures
        spec_parse_token(spec_token(a)) == Some(a),
{
    lemma_token_injective();
}

/// Error kinds of the signing protocol.
#[derive(Copy, Clone, Debug, PartialEq, Eq, Structural)]
pub enum SignError {
    /// Key bytes structurally unacceptable for the chosen algorithm;
    /// raised at backend construction.
    InvalidKey,
    /// Opaque backend failure during update or finalize.
    AlgorithmFailure,
}

/// Both signed and unsigned signature material: the type of the
/// material witnesses the signing state.
pub trait MaybeSigned {
    /// Data representing the signature: the empty type when unsigned,
    /// the algorithm's byte representation when signed.
    type SigData;

    /// Whether this marker denotes a signed state.
    spec fn spec_signed() -> bool;

    /// The signature bytes carried by a value of the material type.
    spec fn spec_sig_bytes(d: &Self::SigData) -> Seq<u8>;

    /// Writes the signature bytes carried by a value of the material
    /// type.
    fn sig_bytes(d: &Self::SigData) -> (r: Vec<u8>)
        ensures
            r@ == Self::spec_sig_bytes(d),
    ;
}

/// Contract of a signing backend: key ingestion, incremental update,
/// single-use finalize (finalize consumes the accumulator, so an
/// instance cannot be finalized twice).
pub trait SigningAlg: MaybeSigned + Sized {
    /// The backend's error type.
    type Error;

    /// The identifier this backend declares.
    spec fn spec_algorithm() -> Algorithm;

    /// The MAC or signature this backend computes, as a function of
    /// key and message.
    spec fn spec_mac(key: Seq<u8>, data: Seq<u8>) -> Seq<u8>;

    /// The keys the backend accepts.
    spec fn spec_key_ok(key: Seq<u8>) -> bool;

    /// Whether update and finalize are free of failure for this
    /// backend; an accepted key then guarantees a signature.
    spec fn spec_infallible() -> bool;

    /// The key a live accumulator was built from.
    spec fn key(&self) -> Seq<u8>;

    /// The message bytes fed to the accumulator so far.
    spec fn data(&self) -> Seq<u8>;

    /// A signing backend is a signed marker: its signature material
    /// witnesses a signature, never the unsigned state.
    proof fn lemma_signed()
        ensures
            Self::spec_signed(),
    ;

    /// The identifier, as a value.
    fn algorithm() -> (a: Algorithm)
        ensures
            a == Self::spec_algorithm(),
    ;

    /// Ingests raw key bytes; fails exactly on keys the algorithm
    /// rejects as structurally invalid.
    fn mac_new_from_slice(key: &[u8]) -> (r: Result<Self, Self::Error>)
        ensures
            r is Ok <==> Self::spec_key_ok(key@),
            r matches Ok(m) ==> m.key() == key@ && m.data() == Seq::<u8>::empty(),
    ;

    /// Feeds message bytes; on success the accumulated message has
    /// grown by exactly `data`.
    fn mac_update(&mut self, data: &[u8]) -> (r: Result<(), Self::Error>)
        ensures
            r is Ok ==> final(self).key() == old(self).key() && final(self).data() == old(
                self,
            ).data() + data@,
            Self::spec_infallible() ==> r is Ok,
    ;

    /// Consumes the accumulator and produces the signature over all
    /// the bytes fed to it.
    fn mac_finalize(self) -> (r: Result<Self::SigData, Self::Error>)
        ensures
            r matches Ok(d) ==> Self::spec_sig_bytes(&d) == Self::spec_mac(
                self.key(),
                self.data(),
            ),
            Self::spec_infallible() ==> r is Ok,
    ;
}

/// Not yet signed: its signature material is the empty type, and a
/// container in this state cannot be serialized as a finished JWS.
pub struct Unsigned {}

impl MaybeSigned for Unsigned {
    type SigData = ();

    open spec fn spec_signed() -> bool {
        false
    }

    open spec fn spec_sig_bytes(d: &()) -> Seq<u8> {
        Seq::empty()
    }

    fn sig_bytes(d: &()) -> (r: Vec<u8>) {
        Vec::new()
    }
}

/// Signing algorithm not fixed in the type, for containers whose
/// algorithm is known only at run time (e.g. decoded incoming JWS).
pub struct AnySigning {}

impl MaybeSigned for AnySigning {
    type SigData = Vec<u8>;

    open spec fn spec_signed() -> bool {
        true
    }

    open spec fn spec_sig_bytes(d: &Vec<u8>) -> Seq<u8> {
        d@
    }

    fn sig_bytes(d: &Vec<u8>) -> (r: Vec<u8>) {
        let mut r: Vec<u8> = Vec::new();
        crate::encode::push_all(&mut r, d.as_slice());
        proof {
            assert(r@ =~= d@);
        }
        r
    }
}

/// The HMAC-SHA-256 tag of a key and a message: a pure function of the
/// two, computed by the backing cryptographic library.
pub uninterp spec fn hmac_sha256(key: Seq<u8>, msg: Seq<u8>) -> Seq<u8>;

/// Relies on `hmac::Hmac<sha2::Sha256>` through `hmac::Mac`
/// (`new_from_slice`, `update`, `finalize`): HMAC-SHA-256 is a function
/// of key and message alone, `new_from_slice` accepts a key of any
/// length (long keys are digested first), so the `unwrap` cannot fail,
/// and the tag is the SHA-256 output size of 32 bytes.
#[verifier::external_body]
fn hmac_sha256_compute(key: &[u8], msg: &[u8]) -> (r: Vec<u8>)
    ensures
        r@ == hmac_sha256(key@, msg@),
        r@.len() == 32,
{
    let mut m = <hmac::Hmac<sha2::Sha256> as hmac::Mac>::new_from_slice(key).unwrap();
    hmac::Mac::update(&mut m, msg);
    hmac::Mac::finalize(m).into_bytes().to_vec()
}

/// HMAC-SHA-256 backend: accumulates the message and computes the tag
/// when finalized.
pub struct HmacSha256 {
    key: Vec<u8>,
    data: Vec<u8>,
}

impl MaybeSigned for HmacSha256 {
    type SigData = Vec<u8>;

    open spec fn spec_signed() -> bool {
        true
    }

    open spec fn spec_sig_bytes(d: &Vec<u8>) -> Seq<u8> {
        d@
    }

    fn sig_bytes(d: &Vec<u8>) -> (r: Vec<u8>) {
        let mut r: Vec<u8> = Vec::new();
        crate::encode::push_all(&mut r, d.as_slice());
        proof {
            assert(r@ =~= d@);
        }
        r
    }
}

impl SigningAlg for HmacSha256 {
    type Error = SignError;

    open spec fn spec_algorithm() -> Algorithm {
        Algorithm::Hs256
    }

    open spec fn spec_mac(key: Seq<u8>, data: Seq<u8>) -> Seq<u8> {
        hmac_sha256(key, data)
    }

    open spec fn spec_key_ok(key: Seq<u8>) -> bool {
        true
    }

    open spec fn spec_infallible() -> bool {
        true
    }

    closed spec fn key(&self) -> Seq<u8> {
        self.key@
    }

    closed spec fn data(&self) -> Seq<u8> {
        self.data@
    }

    proof fn lemma_signed() {
    }

    fn algorithm() -> (a: Algorithm) {
        Algorithm::Hs256
    }

    fn mac_new_from_slice(key: &[u8]) -> (r: Result<Self, SignError>) {
        let mut k: Vec<u8> = Vec::new();
        crate::encode::push_all(&mut k, key);
        proof {
            assert(k@ =~= key@);
        }
        Ok(HmacSha256 { key: k, data: Vec::new() })
    }

    fn mac_update(&mut self, data: &[u8]) -> (r: Result<(), SignError>) {
        crate::encode::push_all(&mut self.data, data);
        Ok(())
    }

    fn mac_finalize(self) -> (r: Result<Vec<u8>, SignError>) {
        Ok(hmac_sha256_compute(self.key.as_slice(), self.data.as_slice()))
    }
}

/// The two signing states are disjoint: the unsigned marker is no
/// signing backend's marker, so a container still unsigned can never
/// be mistaken for one signed with some algorithm.
pub proof fn lemma_unsigned_distinct<Alg: SigningAlg>()
    ensures
        !Unsigned::spec_signed(),
        Alg::spec_signed(),
{
    Alg::lemma_signed();
}

} // verus!
