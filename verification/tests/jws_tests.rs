use jws::encode::{b64_decode, base64url, bytes_eq, compact_wire, decode_compact, find_byte,
    protected_alg, protected_json, push_all, signing_input};
use jws::jws::types::{Compact, Empty, Flat, General, HeaderData, Protected, RawMembers,
    Signature, Unprotected};
use jws::jws::{AnyJws, Jws};
use jws::sign_alg::{Algorithm, HmacSha256, MaybeSigned, SignError, SigningAlg, Unsigned};

use hmac::Mac;

type HmacRef = hmac::Hmac<sha2::Sha256>;

fn reference_hmac(key: &[u8], msg: &[u8]) -> Vec<u8> {
    let mut m = <HmacRef as Mac>::new_from_slice(key).unwrap();
    m.update(msg);
    m.finalize().into_bytes().to_vec()
}

const ALL: [Algorithm; 15] = [
    Algorithm::EdDsa,
    Algorithm::Es256,
    Algorithm::Es256K,
    Algorithm::Es384,
    Algorithm::Es512,
    Algorithm::Hs256,
    Algorithm::Hs384,
    Algorithm::Hs512,
    Algorithm::Ps256,
    Algorithm::Ps384,
    Algorithm::Ps512,
    Algorithm::Rs256,
    Algorithm::Rs384,
    Algorithm::Rs512,
    Algorithm::Null,
];

const TOKENS: [&str; 15] = [
    "EdDSA", "ES256", "ES256K", "ES384", "ES512", "HS256", "HS384", "HS512", "PS256", "PS384",
    "PS512", "RS256", "RS384", "RS512", "none",
];

#[test]
fn token_exact_wire_values() {
    for (a, t) in ALL.iter().zip(TOKENS.iter()) {
        assert_eq!(a.token(), t.as_bytes().to_vec());
    }
}

#[test]
fn token_round_trip_all_identifiers() {
    for a in ALL.iter() {
        let t = a.token();
        assert_eq!(Algorithm::parse_token(&t), Some(*a));
    }
}

#[test]
fn token_none_is_lowercase_literal() {
    assert_eq!(Algorithm::Null.token(), b"none".to_vec());
    assert_eq!(Algorithm::parse_token(b"none"), Some(Algorithm::Null));
    assert_eq!(Algorithm::parse_token(b"Null"), None);
    assert_eq!(Algorithm::parse_token(b"NONE"), None);
}

#[test]
fn token_parse_rejects_noise() {
    assert_eq!(Algorithm::parse_token(b""), None);
    assert_eq!(Algorithm::parse_token(b"hs256"), None);
    assert_eq!(Algorithm::parse_token(b"HS255"), None);
    assert_eq!(Algorithm::parse_token(b"HS2566"), None);
    assert_eq!(Algorithm::parse_token(b"ES256k"), None);
}

#[test]
fn base64url_known_values() {
    assert_eq!(base64url(b"Man"), b"TWFu".to_vec());
    assert_eq!(base64url(b"Ma"), b"TWE".to_vec());
    assert_eq!(base64url(b"M"), b"TQ".to_vec());
    assert_eq!(base64url(b""), Vec::<u8>::new());
    assert_eq!(base64url(b"{\"alg\":\"HS256\"}"), b"eyJhbGciOiJIUzI1NiJ9".to_vec());
    assert_eq!(base64url(&[0xfb, 0xff]), b"-_8".to_vec());
}

#[test]
fn base64url_decode_round_trip() {
    for input in [
        &b""[..],
        &b"M"[..],
        &b"Ma"[..],
        &b"Man"[..],
        &b"{\"sub\":\"alice\"}"[..],
        &[0u8, 255, 7, 128, 63][..],
    ] {
        let enc = base64url(input);
        assert_eq!(b64_decode(&enc), Some(input.to_vec()));
    }
}

#[test]
fn base64url_decode_rejects() {
    assert_eq!(b64_decode(b"A"), None);
    assert_eq!(b64_decode(b"TWFu="), None);
    assert_eq!(b64_decode(b"TW.u"), None);
}

#[test]
fn protected_json_shapes() {
    assert_eq!(
        protected_json(Some(Algorithm::Hs256), b""),
        b"{\"alg\":\"HS256\"}".to_vec()
    );
    assert_eq!(
        protected_json(Some(Algorithm::Null), b"\"kid\":\"a\""),
        b"{\"alg\":\"none\",\"kid\":\"a\"}".to_vec()
    );
    assert_eq!(protected_json(None, b"\"kid\":\"a\""), b"{\"kid\":\"a\"}".to_vec());
    assert_eq!(protected_json(None, b""), b"{}".to_vec());
}

#[test]
fn protected_alg_read_back() {
    for a in ALL.iter() {
        let j = protected_json(Some(*a), b"\"kid\":\"k1\"");
        assert_eq!(protected_alg(&j), Some(*a));
    }
    assert_eq!(protected_alg(b"{}"), None);
    assert_eq!(protected_alg(b"{\"kid\":\"a\"}"), None);
    assert_eq!(protected_alg(b"{\"alg\":\"XX256\"}"), None);
}

#[test]
fn payload_is_returned_unchanged() {
    let payload: Vec<u8> = b"{\"sub\":\"alice\"}".to_vec();
    let j: Jws<Vec<u8>, Compact<Empty, Unsigned>> =
        Jws::new(payload.clone(), Compact::new(Protected::new(Empty::new())));
    assert_eq!(j.payload(), &payload);
}

#[test]
fn any_jws_payload_dispatches() {
    let payload: Vec<u8> = b"p".to_vec();
    let c: AnyJws<Vec<u8>, Empty, Empty, Unsigned> = AnyJws::Compact(Jws::new(
        payload.clone(),
        Compact::new(Protected::new(Empty::new())),
    ));
    assert_eq!(c.payload(), &payload);
    let f: AnyJws<Vec<u8>, Empty, Empty, Unsigned> = AnyJws::Flat(Jws::new(
        payload.clone(),
        Flat::new(Protected::new(Empty::new()), Unprotected::new(Empty::new())),
    ));
    assert_eq!(f.payload(), &payload);
    let records = vec![Signature::new(
        Protected::new(Empty::new()),
        Unprotected::new(Empty::new()),
    )];
    let g: AnyJws<Vec<u8>, Empty, Empty, Unsigned> =
        AnyJws::General(Jws::new(payload.clone(), General::new(records)));
    assert_eq!(g.payload(), &payload);
}

fn hs256_compact_example() -> Jws<Vec<u8>, Compact<Empty, HmacSha256>> {
    let payload: Vec<u8> = b"{\"sub\":\"alice\"}".to_vec();
    let unsigned: Jws<Vec<u8>, Compact<Empty, Unsigned>> =
        Jws::new(payload, Compact::new(Protected::new(Empty::new())));
    unsigned.sign_with::<HmacSha256>(&[0u8; 32]).unwrap()
}

#[test]
fn hs256_example_signing_input_and_tag() {
    let signed = hs256_compact_example();
    // The signing input fixed by RFC 7515, with `alg` filled in by signing.
    let expected_input = b"eyJhbGciOiJIUzI1NiJ9.eyJzdWIiOiJhbGljZSJ9".to_vec();
    assert_eq!(
        signing_input(b"{\"alg\":\"HS256\"}", b"{\"sub\":\"alice\"}"),
        expected_input
    );
    let expected_tag = reference_hmac(&[0u8; 32], &expected_input);
    assert_eq!(signed.data().signature_record().sig(), &expected_tag);
    assert_eq!(
        signed.data().signature_record().protected().alg(),
        &Some(Algorithm::Hs256)
    );
    assert_eq!(signed.payload(), &b"{\"sub\":\"alice\"}".to_vec());
}

#[test]
fn hs256_signing_is_deterministic() {
    let first = hs256_compact_example();
    let second = hs256_compact_example();
    assert_eq!(
        first.data().signature_record().sig(),
        second.data().signature_record().sig()
    );
    // The compute-only operation agrees with the transition.
    let unsigned: Jws<Vec<u8>, Compact<Empty, Unsigned>> = Jws::new(
        b"{\"sub\":\"alice\"}".to_vec(),
        Compact::new(Protected::new(Empty::new())),
    );
    let material = unsigned.signature::<HmacSha256>(&[0u8; 32]).unwrap();
    assert_eq!(&material, first.data().signature_record().sig());
}

#[test]
fn unprotected_header_never_enters_signature() {
    let key = b"k".to_vec();
    let payload: Vec<u8> = b"{\"n\":1}".to_vec();
    let protected = || Protected::new(RawMembers::new(b"\"kid\":\"a\"".to_vec()));
    let one: Jws<Vec<u8>, Flat<RawMembers, RawMembers, Unsigned>> = Jws::new(
        payload.clone(),
        Flat::new(protected(), Unprotected::new(RawMembers::new(b"\"x\":\"1\"".to_vec()))),
    );
    let two: Jws<Vec<u8>, Flat<RawMembers, RawMembers, Unsigned>> = Jws::new(
        payload.clone(),
        Flat::new(protected(), Unprotected::new(RawMembers::new(b"\"x\":\"2\"".to_vec()))),
    );
    let s1 = one.signature::<HmacSha256>(&key).unwrap();
    let s2 = two.signature::<HmacSha256>(&key).unwrap();
    assert_eq!(s1, s2);
    // And both agree with a compact container that has no unprotected slot.
    let compact: Jws<Vec<u8>, Compact<RawMembers, Unsigned>> =
        Jws::new(payload, Compact::new(protected()));
    assert_eq!(compact.signature::<HmacSha256>(&key).unwrap(), s1);
}

#[test]
fn general_signing_keeps_record_order() {
    let key = [7u8; 16];
    let payload: Vec<u8> = b"{\"doc\":true}".to_vec();
    let rec = |kid: &str| {
        Signature::new(
            Protected::new(RawMembers::new(format!("\"kid\":\"{}\"", kid).into_bytes())),
            Unprotected::new(Empty::new()),
        )
    };
    let unsigned: Jws<Vec<u8>, General<RawMembers, Empty, Unsigned>> =
        Jws::new(payload.clone(), General::new(vec![rec("first"), rec("second")]));
    let signed = unsigned.sign_with::<HmacSha256>(&key).unwrap();
    let records = signed.data().signature_records();
    assert_eq!(records.len(), 2);
    let expect = |kid: &str| {
        let ph = protected_json(Some(Algorithm::Hs256), format!("\"kid\":\"{}\"", kid).as_bytes());
        reference_hmac(&key, &signing_input(&ph, &payload))
    };
    assert_eq!(records[0].sig(), &expect("first"));
    assert_eq!(records[1].sig(), &expect("second"));
    assert_ne!(records[0].sig(), records[1].sig());
    assert_eq!(records[0].protected().extra().members(), b"\"kid\":\"first\"".to_vec());
    assert_eq!(records[1].protected().extra().members(), b"\"kid\":\"second\"".to_vec());
    assert_eq!(signed.payload(), &payload);
}

#[test]
fn compact_wire_round_trip() {
    let signed = hs256_compact_example();
    let wire = signed.encode_compact();
    let expected_tag = reference_hmac(&[0u8; 32], b"eyJhbGciOiJIUzI1NiJ9.eyJzdWIiOiJhbGljZSJ9");
    let mut expected_wire = b"eyJhbGciOiJIUzI1NiJ9.eyJzdWIiOiJhbGljZSJ9.".to_vec();
    push_all(&mut expected_wire, &base64url(&expected_tag));
    assert_eq!(wire, expected_wire);
    let (protected, payload, sig) = decode_compact(&wire).unwrap();
    assert_eq!(protected, b"{\"alg\":\"HS256\"}".to_vec());
    assert_eq!(payload, b"{\"sub\":\"alice\"}".to_vec());
    assert_eq!(&sig, signed.data().signature_record().sig());
    assert_eq!(protected_alg(&protected), Some(Algorithm::Hs256));
}

#[test]
fn decode_compact_rejects_malformed() {
    assert_eq!(decode_compact(b"nodotshere"), None);
    assert_eq!(decode_compact(b"one.dot"), None);
    assert_eq!(decode_compact(b"a.b.c.d"), None);
    assert_eq!(decode_compact(b"ab.A.cd"), None);
}

#[test]
fn hmac_backend_incremental_update() {
    let key = b"0123456789abcdef".to_vec();
    let mut m = HmacSha256::mac_new_from_slice(&key).unwrap();
    m.mac_update(b"hello ").unwrap();
    m.mac_update(b"world").unwrap();
    let split = m.mac_finalize().unwrap();
    assert_eq!(split, reference_hmac(&key, b"hello world"));
    assert_eq!(split.len(), 32);
    assert_eq!(HmacSha256::algorithm(), Algorithm::Hs256);
    let tag = HmacSha256::sig_bytes(&split);
    assert_eq!(tag, split);
}

#[test]
fn empty_payload_signs_and_round_trips() {
    let key = [9u8; 8];
    let unsigned: Jws<Vec<u8>, Compact<Empty, Unsigned>> =
        Jws::new(Vec::new(), Compact::new(Protected::new(Empty::new())));
    let signed = unsigned.sign_with::<HmacSha256>(&key).unwrap();
    let expected_input = b"eyJhbGciOiJIUzI1NiJ9.".to_vec();
    assert_eq!(
        signed.data().signature_record().sig(),
        &reference_hmac(&key, &expected_input)
    );
    let wire = signed.encode_compact();
    let (protected, payload, sig) = decode_compact(&wire).unwrap();
    assert_eq!(protected, b"{\"alg\":\"HS256\"}".to_vec());
    assert_eq!(payload, Vec::<u8>::new());
    assert_eq!(&sig, signed.data().signature_record().sig());
}

#[test]
fn decode_compact_empty_segments() {
    assert_eq!(
        decode_compact(b"e30.."),
        Some((b"{}".to_vec(), Vec::new(), Vec::new()))
    );
}

#[test]
fn general_signing_with_no_records() {
    let unsigned: Jws<Vec<u8>, General<Empty, Empty, Unsigned>> =
        Jws::new(b"p".to_vec(), General::new(Vec::new()));
    let signed = unsigned.sign_with::<HmacSha256>(&[1u8; 4]).unwrap();
    assert_eq!(signed.data().signature_records().len(), 0);
    assert_eq!(signed.payload(), &b"p".to_vec());
}

#[test]
fn sign_error_values_are_distinct() {
    assert_ne!(SignError::InvalidKey, SignError::AlgorithmFailure);
}

#[test]
fn helper_functions_behave() {
    assert!(bytes_eq(b"abc", b"abc"));
    assert!(!bytes_eq(b"abc", b"abd"));
    assert!(!bytes_eq(b"abc", b"ab"));
    assert_eq!(find_byte(b"a.b", 0, b'.'), Some(1));
    assert_eq!(find_byte(b"a.b", 2, b'.'), None);
    let mut v = b"ab".to_vec();
    push_all(&mut v, b"cd");
    assert_eq!(v, b"abcd".to_vec());
    let w = compact_wire(b"{}", b"x", b"");
    assert_eq!(w, b"e30.eA.".to_vec());
}
