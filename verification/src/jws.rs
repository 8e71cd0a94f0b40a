//! The JWS container and the signing protocol.

pub mod types;

use vstd::prelude::*;
use crate::encode::{
    spec_signing_input, spec_protected_json, spec_compact_wire, spec_decode_compact,
    spec_protected_alg, protected_json, signing_input, compact_wire, lemma_compact_wire_round_trip,
    lemma_protected_alg_round_trip,
};
use crate::sign_alg::{Algorithm, MaybeSigned, SigningAlg, Unsigned};
use crate::jws::types::{
    JwsFormat, Compact, Flat, General, Empty, Signature, HeaderData, PayloadData,
};

verus! {

/// A JWS in any of the three shapes, for call sites that do not care
/// which wire shape they received.
pub enum AnyJws<T, Phd, Uhd, Sign: MaybeSigned> {
    Compact(Jws<T, Compact<Phd, Sign>>),
    General(Jws<T, General<Phd, Uhd, Sign>>),
    Flat(Jws<T, Flat<Phd, Uhd, Sign>>),
}

impl<T, Phd, Uhd, Sign: MaybeSigned> AnyJws<T, Phd, Uhd, Sign> {
    /// The payload of whichever variant is held.
    pub open spec fn spec_payload(&self) -> T {
        match self {
            AnyJws::Compact(v) => v.spec_payload(),
            AnyJws::General(v) => v.spec_payload(),
            AnyJws::Flat(v) => v.spec_payload(),
        }
    }

    /// Read-only access to the payload, whichever variant is held.
    pub fn payload(&self) -> (r: &T)
        ensures
            *r == self.spec_payload(),
    {
        match self {
            AnyJws::Compact(v) => v.payload(),
            AnyJws::General(v) => v.payload(),
            AnyJws::Flat(v) => v.payload(),
        }
    }
}

/// A payload together with one format variant; the payload is owned by
/// the container and immutable once placed.
pub struct Jws<T, Fmt: JwsFormat = Compact<Empty, Unsigned>> {
    payload: T,
    data: Fmt,
}

impl<T, Fmt: JwsFormat> Jws<T, Fmt> {
    /// The payload supplied at construction.
    pub closed spec fn spec_payload(&self) -> T {
        self.payload
    }

    /// The format data.
    pub closed spec fn spec_data(&self) -> Fmt {
        self.data
    }

    /// A container from payload and format data.
    pub fn new(payload: T, data: Fmt) -> (r: Self)
        ensures
            r.spec_payload() == payload,
            r.spec_data() == data,
    {
        Jws { payload, data }
    }

    /// Read-only access to the payload: the exact payload supplied at
    /// construction, never a mutable reference.
    pub fn payload(&self) -> (r: &T)
        ensures
            *r == self.spec_payload(),
    {
        &self.payload
    }

    /// Read access to the format data.
    pub fn data(&self) -> (r: &Fmt)
        ensures
            *r == self.spec_data(),
    {
        &self.data
    }
}

/// The signing input determined by a payload, protected extension
/// fields, and the algorithm that signs: the protected header is
/// serialized with that algorithm's identifier filled in, and no
/// unprotected data enters it.
pub open spec fn spec_input_for<T: PayloadData, Phd: HeaderData>(
    payload: T,
    extra: Phd,
    a: Algorithm,
) -> Seq<u8> {
    spec_signing_input(spec_protected_json(Some(a), extra.spec_members()), payload.spec_bytes())
}

/// Runs one fresh backend accumulator over a fully assembled signing
/// input: ingest the key, feed the input once, finalize.
fn sign_bytes<Alg: SigningAlg>(key: &[u8], input: &[u8]) -> (r: Result<Alg::SigData, Alg::Error>)
    ensures
        r matches Ok(d) ==> Alg::spec_sig_bytes(&d) == Alg::spec_mac(key@, input@),
        !Alg::spec_key_ok(key@) ==> r is Err,
        Alg::spec_key_ok(key@) && Alg::spec_infallible() ==> r is Ok,
{
    let mut m = match Alg::mac_new_from_slice(key) {
        Ok(m) => m,
        Err(e) => {
            return Err(e);
        },
    };
    match m.mac_update(input) {
        Ok(()) => {},
        Err(e) => {
            return Err(e);
        },
    }
    proof {
        assert(Seq::<u8>::empty() + input@ =~= input@);
    }
    m.mac_finalize()
}

impl<T: PayloadData, Phd: HeaderData, Sign: MaybeSigned> Jws<T, Compact<Phd, Sign>> {
    /// Computes the signature material over the RFC 7515 signing input,
    /// without changing the container: the signature of the payload and
    /// the protected header carrying `Alg`'s identifier, under `key`.
    pub fn signature<Alg: SigningAlg>(&self, key: &[u8]) -> (r: Result<Alg::SigData, Alg::Error>)
        ensures
            r matches Ok(d) ==> Alg::spec_sig_bytes(&d) == Alg::spec_mac(
                key@,
                spec_input_for(
                    self.spec_payload(),
                    self.spec_data().spec_signature().spec_protected().spec_extra(),
                    Alg::spec_algorithm(),
                ),
            ),
            !Alg::spec_key_ok(key@) ==> r is Err,
            Alg::spec_key_ok(key@) && Alg::spec_infallible() ==> r is Ok,
    {
        let a = Alg::algorithm();
        let members = self.data.signature_record().protected().extra().members();
        let pj = protected_json(Some(a), members.as_slice());
        let pl = self.payload.bytes();
        let input = signing_input(pj.as_slice(), pl.as_slice());
        sign_bytes::<Alg>(key, input.as_slice())
    }
}

impl<T: PayloadData, Phd: HeaderData> Jws<T, Compact<Phd, Unsigned>> {
    /// Signs and transitions: consumes the unsigned container and
    /// produces a new one whose type, protected header and signature
    /// material carry `Alg`; the payload and the protected extension
    /// fields are taken over unchanged.  The transition is one-way:
    /// re-signing requires building a fresh unsigned container.
    pub fn sign_with<Alg: SigningAlg>(self, key: &[u8]) -> (r: Result<
        Jws<T, Compact<Phd, Alg>>,
        Alg::Error,
    >)
        ensures
            r matches Ok(j) ==> {
                &&& j.spec_payload() == self.spec_payload()
                &&& j.spec_data().spec_signature().spec_protected().spec_alg() == Some(
                    Alg::spec_algorithm(),
                )
                &&& j.spec_data().spec_signature().spec_protected().spec_extra()
                    == self.spec_data().spec_signature().spec_protected().spec_extra()
                &&& Alg::spec_sig_bytes(&j.spec_data().spec_signature().spec_sig())
                    == Alg::spec_mac(
                    key@,
                    spec_input_for(
                        self.spec_payload(),
                        self.spec_data().spec_signature().spec_protected().spec_extra(),
                        Alg::spec_algorithm(),
                    ),
                )
            },
            !Alg::spec_key_ok(key@) ==> r is Err,
            Alg::spec_key_ok(key@) && Alg::spec_infallible() ==> r is Ok,
    {
        let sig = match self.signature::<Alg>(key) {
            Ok(s) => s,
            Err(e) => {
                return Err(e);
            },
        };
        let a = Alg::algorithm();
        let Jws { payload, data } = self;
        let (protected, unprotected, _unsigned) = data.into_record().into_parts();
        let rec = Signature::<Phd, Empty, Alg>::from_parts(protected.with_alg(a), unprotected, sig);
        Ok(Jws { payload, data: Compact::from_record(rec) })
    }
}

impl<T: PayloadData, Phd: HeaderData, Uhd, Sign: MaybeSigned> Jws<T, Flat<Phd, Uhd, Sign>> {
    /// Computes the signature material over the RFC 7515 signing input,
    /// without changing the container.  The signing input is the same
    /// as for a compact container: the unprotected header never enters
    /// it.
    pub fn signature<Alg: SigningAlg>(&self, key: &[u8]) -> (r: Result<Alg::SigData, Alg::Error>)
        ensures
            r matches Ok(d) ==> Alg::spec_sig_bytes(&d) == Alg::spec_mac(
                key@,
                spec_input_for(
                    self.spec_payload(),
                    self.spec_data().spec_signature().spec_protected().spec_extra(),
                    Alg::spec_algorithm(),
                ),
            ),
            !Alg::spec_key_ok(key@) ==> r is Err,
            Alg::spec_key_ok(key@) && Alg::spec_infallible() ==> r is Ok,
    {
        let a = Alg::algorithm();
        let members = self.data.signature_record().protected().extra().members();
        let pj = protected_json(Some(a), members.as_slice());
        let pl = self.payload.bytes();
        let input = signing_input(pj.as_slice(), pl.as_slice());
        sign_bytes::<Alg>(key, input.as_slice())
    }
}

impl<T: PayloadData, Phd: HeaderData, Uhd> Jws<T, Flat<Phd, Uhd, Unsigned>> {
    /// Signs and transitions, as for the compact shape; the unprotected
    /// header is taken over unchanged and contributes nothing to the
    /// signature.
    pub fn sign_with<Alg: SigningAlg>(self, key: &[u8]) -> (r: Result<
        Jws<T, Flat<Phd, Uhd, Alg>>,
        Alg::Error,
    >)
        ensures
            r matches Ok(j) ==> {
                &&& j.spec_payload() == self.spec_payload()
                &&& j.spec_data().spec_signature().spec_protected().spec_alg() == Some(
                    Alg::spec_algorithm(),
                )
                &&& j.spec_data().spec_signature().spec_protected().spec_extra()
                    == self.spec_data().spec_signature().spec_protected().spec_extra()
                &&& j.spec_data().spec_signature().spec_unprotected()
                    == self.spec_data().spec_signature().spec_unprotected()
                &&& Alg::spec_sig_bytes(&j.spec_data().spec_signature().spec_sig())
                    == Alg::spec_mac(
                    key@,
                    spec_input_for(
                        self.spec_payload(),
                        self.spec_data().spec_signature().spec_protected().spec_extra(),
                        Alg::spec_algorithm(),
                    ),
                )
            },
            !Alg::spec_key_ok(key@) ==> r is Err,
            Alg::spec_key_ok(key@) && Alg::spec_infallible() ==> r is Ok,
    {
        let sig = match self.signature::<Alg>(key) {
            Ok(s) => s,
            Err(e) => {
                return Err(e);
            },
        };
        let a = Alg::algorithm();
        let Jws { payload, data } = self;
        let (protected, unprotected, _unsigned) = data.into_record().into_parts();
        let rec = Signature::<Phd, Uhd, Alg>::from_parts(protected.with_alg(a), unprotected, sig);
        Ok(Jws { payload, data: Flat::from_record(rec) })
    }
}

/// How an output record of general signing relates to its input
/// record: identifier set to `Alg`'s, extension fields and unprotected
/// header unchanged, and the material is `Alg`'s MAC of the record's
/// own signing input over the shared payload.
pub open spec fn spec_record_signed<Phd: HeaderData, Uhd, Alg: SigningAlg>(
    o: Signature<Phd, Uhd, Unsigned>,
    n: Signature<Phd, Uhd, Alg>,
    key: Seq<u8>,
    payload_bytes: Seq<u8>,
) -> bool {
    &&& n.spec_protected().spec_alg() == Some(Alg::spec_algorithm())
    &&& n.spec_protected().spec_extra() == o.spec_protected().spec_extra()
    &&& n.spec_unprotected() == o.spec_unprotected()
    &&& Alg::spec_sig_bytes(&n.spec_sig()) == Alg::spec_mac(
        key,
        spec_signing_input(
            spec_protected_json(
                Some(Alg::spec_algorithm()),
                o.spec_protected().spec_extra().spec_members(),
            ),
            payload_bytes,
        ),
    )
}

impl<T: PayloadData, Phd: HeaderData, Uhd> Jws<T, General<Phd, Uhd, Unsigned>> {
    /// Signs every record with one backend against the shared payload,
    /// all-or-nothing: the first backend error is returned and no
    /// partially signed container is produced.  The output sequence
    /// preserves the caller's record order position by position.
    pub fn sign_with<Alg: SigningAlg>(self, key: &[u8]) -> (r: Result<
        Jws<T, General<Phd, Uhd, Alg>>,
        Alg::Error,
    >)
        ensures
            r matches Ok(j) ==> {
                &&& j.spec_payload() == self.spec_payload()
                &&& j.spec_data().spec_signatures().len()
                    == self.spec_data().spec_signatures().len()
                &&& forall|i: int|
                    0 <= i < j.spec_data().spec_signatures().len() ==> spec_record_signed(
                        self.spec_data().spec_signatures()[i],
                        #[trigger] j.spec_data().spec_signatures()[i],
                        key@,
                        self.spec_payload().spec_bytes(),
                    )
            },
            !Alg::spec_key_ok(key@) && self.spec_data().spec_signatures().len() > 0 ==> r is Err,
            Alg::spec_key_ok(key@) && Alg::spec_infallible() ==> r is Ok,
    {
        let a = Alg::algorithm();
        let Jws { payload, data } = self;
        let mut rest = data.into_records();
        let ghost orig = rest@;
        let mut out: Vec<Signature<Phd, Uhd, Alg>> = Vec::new();
        let pl = payload.bytes();
        proof {
            assert(rest@ =~= orig.skip(0));
        }
        while rest.len() > 0
            invariant
                a == Alg::spec_algorithm(),
                pl@ == payload.spec_bytes(),
                out@.len() + rest@.len() == orig.len(),
                rest@ == orig.skip(out@.len() as int),
                out@.len() > 0 ==> Alg::spec_key_ok(key@),
                forall|i: int|
                    0 <= i < out@.len() ==> spec_record_signed(
                        orig[i],
                        #[trigger] out@[i],
                        key@,
                        payload.spec_bytes(),
                    ),
            decreases rest.len(),
        {
            let ghost k = out@.len() as int;
            let rec = rest.remove(0);
            proof {
                assert(orig.skip(k)[0] == orig[k]);
                assert(orig.skip(k).remove(0) =~= orig.skip(k + 1));
            }
            let members = rec.protected().extra().members();
            let pj = protected_json(Some(a), members.as_slice());
            let input = signing_input(pj.as_slice(), pl.as_slice());
            let sig = match sign_bytes::<Alg>(key, input.as_slice()) {
                Ok(s) => s,
                Err(e) => {
                    return Err(e);
                },
            };
            let (protected, unprotected, _unsigned) = rec.into_parts();
            out.push(Signature::<Phd, Uhd, Alg>::from_parts(protected.with_alg(a), unprotected, sig));
        }
        proof {
            assert(out@.len() == orig.len());
        }
        Ok(Jws { payload, data: General::from_records(out) })
    }
}

impl<T: PayloadData, Phd: HeaderData, Alg: SigningAlg> Jws<T, Compact<Phd, Alg>> {
    /// The compact wire form of a signed container.  Only a container
    /// whose signing marker is a real backend has this operation: the
    /// `Unsigned` marker does not satisfy the `SigningAlg` bound, so
    /// serializing a not-yet-signed container as a finished JWS is a
    /// type error, not a runtime condition.
    pub fn encode_compact(&self) -> (r: Vec<u8>)
        ensures
            r@ == spec_compact_wire(
                spec_protected_json(
                    self.spec_data().spec_signature().spec_protected().spec_alg(),
                    self.spec_data().spec_signature().spec_protected().spec_extra().spec_members(),
                ),
                self.spec_payload().spec_bytes(),
                Alg::spec_sig_bytes(&self.spec_data().spec_signature().spec_sig()),
            ),
    {
        let rec = self.data.signature_record();
        let members = rec.protected().extra().members();
        let alg_v = *rec.protected().alg();
        let pj = protected_json(alg_v, members.as_slice());
        let pl = self.payload.bytes();
        let sg = Alg::sig_bytes(rec.sig());
        compact_wire(pj.as_slice(), pl.as_slice(), sg.as_slice())
    }
}

/// Determinism of signing: two unsigned compact containers that are
/// logically identical — equal payload bytes and equal protected
/// extension members — are signed over the same signing input, so the
/// same backend with the same key produces identical signature
/// material for both (the material of each is pinned to
/// `Alg::spec_mac` of that input by [`Jws::sign_with`]'s contract).
pub proof fn lemma_sign_deterministic<
    T1: PayloadData,
    T2: PayloadData,
    Phd1: HeaderData,
    Phd2: HeaderData,
    Alg: SigningAlg,
>(
    j1: Jws<T1, Compact<Phd1, Unsigned>>,
    j2: Jws<T2, Compact<Phd2, Unsigned>>,
    key: Seq<u8>,
)
    requires
        j1.spec_payload().spec_bytes() == j2.spec_payload().spec_bytes(),
        j1.spec_data().spec_signature().spec_protected().spec_extra().spec_members()
            == j2.spec_data().spec_signature().spec_protected().spec_extra().spec_members(),
    ensures
        spec_input_for(
            j1.spec_payload(),
            j1.spec_data().spec_signature().spec_protected().spec_extra(),
            Alg::spec_algorithm(),
        ) == spec_input_for(
            j2.spec_payload(),
            j2.spec_data().spec_signature().spec_protected().spec_extra(),
            Alg::spec_algorithm(),
        ),
        Alg::spec_mac(
            key,
            spec_input_for(
                j1.spec_payload(),
                j1.spec_data().spec_signature().spec_protected().spec_extra(),
                Alg::spec_algorithm(),
            ),
        ) == Alg::spec_mac(
            key,
            spec_input_for(
                j2.spec_payload(),
                j2.spec_data().spec_signature().spec_protected().spec_extra(),
                Alg::spec_algorithm(),
            ),
        ),
{
}

/// The signing input excludes the unprotected header: two flat
/// containers that agree in payload bytes and protected extension
/// members have the same signing input and the same signature
/// material under any key, whatever their unprotected headers hold.
pub proof fn lemma_unprotected_excluded<
    T: PayloadData,
    Phd: HeaderData,
    Uhd1,
    Uhd2,
    Alg: SigningAlg,
>(
    j1: Jws<T, Flat<Phd, Uhd1, Unsigned>>,
    j2: Jws<T, Flat<Phd, Uhd2, Unsigned>>,
    key: Seq<u8>,
)
    requires
        j1.spec_payload().spec_bytes() == j2.spec_payload().spec_bytes(),
        j1.spec_data().spec_signature().spec_protected().spec_extra().spec_members()
            == j2.spec_data().spec_signature().spec_protected().spec_extra().spec_members(),
    ensures
        spec_input_for(
            j1.spec_payload(),
            j1.spec_data().spec_signature().spec_protected().spec_extra(),
            Alg::spec_algorithm(),
        ) == spec_input_for(
            j2.spec_payload(),
            j2.spec_data().spec_signature().spec_protected().spec_extra(),
            Alg::spec_algorithm(),
        ),
        Alg::spec_mac(
            key,
            spec_input_for(
                j1.spec_payload(),
                j1.spec_data().spec_signature().spec_protected().spec_extra(),
                Alg::spec_algorithm(),
            ),
        ) == Alg::spec_mac(
            key,
            spec_input_for(
                j2.spec_payload(),
                j2.spec_data().spec_signature().spec_protected().spec_extra(),
                Alg::spec_algorithm(),
            ),
        ),
{
}

/// Round trip of a signed compact container through the wire form:
/// splitting and decoding what [`Jws::encode_compact`] produced
/// recovers the protected-header bytes, the payload bytes and the
/// signature bytes exactly, and reading the protected header back
/// yields the stored algorithm identifier.
pub proof fn lemma_encode_decode_compact<T: PayloadData, Phd: HeaderData, Alg: SigningAlg>(
    j: Jws<T, Compact<Phd, Alg>>,
)
    requires
        j.spec_data().spec_signature().spec_protected().spec_alg() is Some,
    ensures
        ({
            let pj = spec_protected_json(
                j.spec_data().spec_signature().spec_protected().spec_alg(),
                j.spec_data().spec_signature().spec_protected().spec_extra().spec_members(),
            );
            let pl = j.spec_payload().spec_bytes();
            let sg = Alg::spec_sig_bytes(&j.spec_data().spec_signature().spec_sig());
            &&& spec_decode_compact(spec_compact_wire(pj, pl, sg)) == Some((pj, pl, sg))
            &&& spec_protected_alg(pj) == j.spec_data().spec_signature().spec_protected().spec_alg()
        }),
{
    let alg = j.spec_data().spec_signature().spec_protected().spec_alg();
    let members = j.spec_data().spec_signature().spec_protected().spec_extra().spec_members();
    let pj = spec_protected_json(alg, members);
    let pl = j.spec_payload().spec_bytes();
    let sg = Alg::spec_sig_bytes(&j.spec_data().spec_signature().spec_sig());
    lemma_compact_wire_round_trip(pj, pl, sg);
    lemma_protected_alg_round_trip(alg->0, members);
}

} // verus!
