//! Byte-level encoding: base64url without padding, the RFC 7515 signing
//! input, the protected-header JSON object, and the compact wire form.

use vstd::prelude::*;
use vstd::slice::slice_subrange;
use crate::sign_alg::{Algorithm, spec_token, spec_parse_token, lemma_token_no_quote,
    lemma_parse_of_token};

verus! {

/// Byte-slice equality, decided element by element.
pub fn bytes_eq(a: &[u8], b: &[u8]) -> (r: bool)
    ensures
        r <==> a@ == b@,
{
    if a.len() != b.len() {
        assert(a@.len() != b@.len());
        return false;
    }
    let n = a.len();
    let mut i: usize = 0;
    while i < n
        invariant
            n == a@.len() == b@.len(),
            i <= n,
            forall|j: int| 0 <= j < i ==> a@[j] == b@[j],
        decreases n - i,
    {
        if a[i] != b[i] {
            return false;
        }
        i += 1;
    }
    proof {
        assert(a@ =~= b@);
    }
    true
}

/// Appends all of `src` to `dst`.
pub fn push_all(dst: &mut Vec<u8>, src: &[u8])
    ensures
        final(dst)@ == old(dst)@ + src@,
{
    let n = src.len();
    let mut i: usize = 0;
    while i < n
        invariant
            n == src@.len(),
            i <= n,
            dst@ == old(dst)@ + src@.take(i as int),
        decreases n - i,
    {
        dst.push(src[i]);
        proof {
            assert(old(dst)@ + src@.take(i as int) + seq![src@[i as int]] =~= old(dst)@
                + src@.take(i as int + 1));
        }
        i += 1;
    }
    proof {
        assert(src@.take(n as int) =~= src@);
    }
}

/// The base64url digit for a six-bit value: `A`-`Z`, `a`-`z`, `0`-`9`,
/// `-`, `_` (RFC 4648 section 5).
pub open spec fn b64_char(v: u8) -> u8
    recommends
        v < 64,
{
    if v < 26 {
        (65 + v) as u8  // 'A' + v
    } else if v < 52 {
        (71 + v) as u8  // 'a' + (v - 26)
    } else if v < 62 {
        (v - 4) as u8  // '0' + (v - 52)
    } else if v == 62 {
        45  // '-'
    } else {
        95  // '_'
    }
}

/// The six-bit value of a base64url digit, or `-1` for a byte that is
/// not one.
pub open spec fn b64_inv(c: u8) -> int {
    if 65 <= c < 91 {
        c - 65
    } else if 97 <= c < 123 {
        c - 71
    } else if 48 <= c < 58 {
        c + 4
    } else if c == 45 {
        62
    } else if c == 95 {
        63
    } else {
        -1
    }
}

/// Whether a byte is a base64url digit.
pub open spec fn is_b64(c: u8) -> bool {
    b64_inv(c) >= 0
}

/// The digit map is injective on six-bit values, its range contains
/// neither the period, the quote, nor the brace bytes.
proof fn lemma_char_inv(v: u8)
    requires
        v < 64,
    ensures
        b64_inv(b64_char(v)) == v as int,
        is_b64(b64_char(v)),
        b64_char(v) != 46,
        b64_char(v) != 34,
{
}

/// The four digits encoding one three-byte group.
pub open spec fn enc3(b0: u8, b1: u8, b2: u8) -> Seq<u8> {
    seq![
        b64_char(b0 >> 2),
        b64_char(((b0 & 3) << 4) | (b1 >> 4)),
        b64_char(((b1 & 15) << 2) | (b2 >> 6)),
        b64_char(b2 & 63),
    ]
}

/// The three digits encoding a trailing two-byte group.
pub open spec fn enc2(b0: u8, b1: u8) -> Seq<u8> {
    seq![b64_char(b0 >> 2), b64_char(((b0 & 3) << 4) | (b1 >> 4)), b64_char((b1 & 15) << 2)]
}

/// The two digits encoding a trailing one-byte group.
pub open spec fn enc1(b0: u8) -> Seq<u8> {
    seq![b64_char(b0 >> 2), b64_char((b0 & 3) << 4)]
}

/// Base64url without padding: three-byte groups become four digits, a
/// trailing one- or two-byte group becomes two or three digits.
pub open spec fn spec_base64url(s: Seq<u8>) -> Seq<u8>
    decreases s.len(),
{
    if s.len() == 0 {
        Seq::empty()
    } else if s.len() == 1 {
        enc1(s[0])
    } else if s.len() == 2 {
        enc2(s[0], s[1])
    } else {
        enc3(s[0], s[1], s[2]) + spec_base64url(s.skip(3))
    }
}

/// Every six-bit slice of a group is below 64.
proof fn lemma_sextet_range(b0: u8, b1: u8, b2: u8)
    ensures
        (b0 >> 2) < 64,
        (((b0 & 3) << 4) | (b1 >> 4)) < 64,
        (((b1 & 15) << 2) | (b2 >> 6)) < 64,
        (b2 & 63) < 64,
        ((b0 & 3) << 4) < 64,
        ((b1 & 15) << 2) < 64,
{
    assert((b0 >> 2) < 64) by (bit_vector);
    assert((((b0 & 3) << 4) | (b1 >> 4)) < 64) by (bit_vector);
    assert((((b1 & 15) << 2) | (b2 >> 6)) < 64) by (bit_vector);
    assert((b2 & 63) < 64) by (bit_vector);
    assert(((b0 & 3) << 4) < 64) by (bit_vector);
    assert(((b1 & 15) << 2) < 64) by (bit_vector);
}

/// Exec form of [`b64_char`].
fn b64_char_x(v: u8) -> (c: u8)
    requires
        v < 64,
    ensures
        c == b64_char(v),
{
    if v < 26 {
        65 + v
    } else if v < 52 {
        71 + v
    } else if v < 62 {
        v - 4
    } else if v == 62 {
        45
    } else {
        95
    }
}

/// Base64url-encodes a byte string, without padding.
pub fn base64url(s: &[u8]) -> (r: Vec<u8>)
    ensures
        r@ == spec_base64url(s@),
{
    let n = s.len();
    let mut r: Vec<u8> = Vec::new();
    let mut i: usize = 0;
    proof {
        assert(s@.skip(0) =~= s@);
        assert(r@ + spec_base64url(s@) =~= spec_base64url(s@));
    }
    while n - i >= 3
        invariant
            n == s@.len(),
            i <= n,
            spec_base64url(s@) == r@ + spec_base64url(s@.skip(i as int)),
        decreases n - i,
    {
        let b0 = s[i];
        let b1 = s[i + 1];
        let b2 = s[i + 2];
        proof {
            lemma_sextet_range(b0, b1, b2);
        }
        let ghost prev = r@;
        r.push(b64_char_x(b0 >> 2));
        r.push(b64_char_x(((b0 & 3) << 4) | (b1 >> 4)));
        r.push(b64_char_x(((b1 & 15) << 2) | (b2 >> 6)));
        r.push(b64_char_x(b2 & 63));
        proof {
            let sk = s@.skip(i as int);
            assert(sk[0] == s@[i as int]);
            assert(sk[1] == s@[i as int + 1]);
            assert(sk[2] == s@[i as int + 2]);
            assert(sk.skip(3) =~= s@.skip(i as int + 3));
            assert(r@ =~= prev + enc3(b0, b1, b2));
            assert(spec_base64url(s@) =~= r@ + spec_base64url(s@.skip(i as int + 3)));
        }
        i += 3;
    }
    let ghost tail = s@.skip(i as int);
    if n - i == 1 {
        let b0 = s[i];
        proof {
            lemma_sextet_range(b0, 0, 0);
            assert(tail[0] == s@[i as int]);
        }
        let ghost prev = r@;
        r.push(b64_char_x(b0 >> 2));
        r.push(b64_char_x((b0 & 3) << 4));
        proof {
            assert(r@ =~= prev + enc1(b0));
        }
    } else if n - i == 2 {
        let b0 = s[i];
        let b1 = s[i + 1];
        proof {
            lemma_sextet_range(b0, b1, 0);
            assert(tail[0] == s@[i as int]);
            assert(tail[1] == s@[i as int + 1]);
        }
        let ghost prev = r@;
        r.push(b64_char_x(b0 >> 2));
        r.push(b64_char_x(((b0 & 3) << 4) | (b1 >> 4)));
        r.push(b64_char_x((b1 & 15) << 2));
        proof {
            assert(r@ =~= prev + enc2(b0, b1));
        }
    } else {
        proof {
            assert(tail =~= Seq::<u8>::empty());
            assert(r@ =~= r@ + spec_base64url(tail));
        }
    }
    r
}

/// First byte recovered from digits one and two.
pub open spec fn dec_b0(c0: u8, c1: u8) -> u8 {
    ((b64_inv(c0) as u8) << 2) | ((b64_inv(c1) as u8) >> 4)
}

/// Second byte recovered from digits two and three.
pub open spec fn dec_b1(c1: u8, c2: u8) -> u8 {
    ((b64_inv(c1) as u8) << 4) | ((b64_inv(c2) as u8) >> 2)
}

/// Third byte recovered from digits three and four.
pub open spec fn dec_b2(c2: u8, c3: u8) -> u8 {
    ((b64_inv(c2) as u8) << 6) | (b64_inv(c3) as u8)
}

/// Base64url decoding, without padding: four-digit groups from the
/// front, a trailing group of two or three digits; a lone trailing
/// digit or a byte that is no digit rejects the input.
pub open spec fn spec_b64_decode(s: Seq<u8>) -> Option<Seq<u8>>
    decreases s.len(),
{
    if s.len() == 0 {
        Some(Seq::empty())
    } else if s.len() == 1 {
        None
    } else if s.len() == 2 {
        if is_b64(s[0]) && is_b64(s[1]) {
            Some(seq![dec_b0(s[0], s[1])])
        } else {
            None
        }
    } else if s.len() == 3 {
        if is_b64(s[0]) && is_b64(s[1]) && is_b64(s[2]) {
            Some(seq![dec_b0(s[0], s[1]), dec_b1(s[1], s[2])])
        } else {
            None
        }
    } else {
        if is_b64(s[0]) && is_b64(s[1]) && is_b64(s[2]) && is_b64(s[3]) {
            match spec_b64_decode(s.skip(4)) {
                Some(rest) => Some(
                    seq![dec_b0(s[0], s[1]), dec_b1(s[1], s[2]), dec_b2(s[2], s[3])] + rest,
                ),
                None => None,
            }
        } else {
            None
        }
    }
}

/// Exec form of [`b64_inv`].
fn b64_val_x(c: u8) -> (r: Option<u8>)
    ensures
        match r {
            Some(v) => b64_inv(c) == v as int && v < 64,
            None => b64_inv(c) == -1,
        },
{
    if 65 <= c && c < 91 {
        Some(c - 65)
    } else if 97 <= c && c < 123 {
        Some(c - 71)
    } else if 48 <= c && c < 58 {
        Some(c + 4)
    } else if c == 45 {
        Some(62)
    } else if c == 95 {
        Some(63)
    } else {
        None
    }
}

/// Base64url-decodes a byte string; `None` exactly on the inputs that
/// [`spec_b64_decode`] rejects.
pub fn b64_decode(s: &[u8]) -> (r: Option<Vec<u8>>)
    ensures
        match r {
            Some(v) => spec_b64_decode(s@) == Some(v@),
            None => spec_b64_decode(s@) is None,
        },
{
    let n = s.len();
    let mut out: Vec<u8> = Vec::new();
    let mut i: usize = 0;
    proof {
        assert(s@.skip(0) =~= s@);
    }
    while n - i >= 4
        invariant
            n == s@.len(),
            i <= n,
            spec_b64_decode(s@) == match spec_b64_decode(s@.skip(i as int)) {
                Some(rest) => Some(out@ + rest),
                None => None::<Seq<u8>>,
            },
        decreases n - i,
    {
        let v0 = match b64_val_x(s[i]) {
            Some(v) => v,
            None => {
                return None;
            },
        };
        let v1 = match b64_val_x(s[i + 1]) {
            Some(v) => v,
            None => {
                return None;
            },
        };
        let v2 = match b64_val_x(s[i + 2]) {
            Some(v) => v,
            None => {
                return None;
            },
        };
        let v3 = match b64_val_x(s[i + 3]) {
            Some(v) => v,
            None => {
                return None;
            },
        };
        let ghost prev = out@;
        out.push((v0 << 2) | (v1 >> 4));
        out.push((v1 << 4) | (v2 >> 2));
        out.push((v2 << 6) | v3);
        proof {
            let sk = s@.skip(i as int);
            assert(sk[0] == s@[i as int]);
            assert(sk[1] == s@[i as int + 1]);
            assert(sk[2] == s@[i as int + 2]);
            assert(sk[3] == s@[i as int + 3]);
            assert(sk.skip(4) =~= s@.skip(i as int + 4));
            assert(out@ =~= prev + seq![dec_b0(sk[0], sk[1]), dec_b1(sk[1], sk[2]), dec_b2(sk[2], sk[3])]);
            if let Some(rest) = spec_b64_decode(s@.skip(i as int + 4)) {
                assert(prev + (seq![dec_b0(sk[0], sk[1]), dec_b1(sk[1], sk[2]), dec_b2(sk[2], sk[3])]
                    + rest) =~= out@ + rest);
            }
        }
        i += 4;
    }
    let ghost tail = s@.skip(i as int);
    if n - i == 0 {
        proof {
            assert(out@ + Seq::<u8>::empty() =~= out@);
        }
        Some(out)
    } else if n - i == 1 {
        None
    } else if n - i == 2 {
        proof {
            assert(tail[0] == s@[i as int]);
            assert(tail[1] == s@[i as int + 1]);
        }
        let v0 = match b64_val_x(s[i]) {
            Some(v) => v,
            None => {
                return None;
            },
        };
        let v1 = match b64_val_x(s[i + 1]) {
            Some(v) => v,
            None => {
                return None;
            },
        };
        let ghost prev = out@;
        out.push((v0 << 2) | (v1 >> 4));
        proof {
            assert(out@ =~= prev + seq![dec_b0(tail[0], tail[1])]);
        }
        Some(out)
    } else {
        proof {
            assert(tail[0] == s@[i as int]);
            assert(tail[1] == s@[i as int + 1]);
            assert(tail[2] == s@[i as int + 2]);
        }
        let v0 = match b64_val_x(s[i]) {
            Some(v) => v,
            None => {
                return None;
            },
        };
        let v1 = match b64_val_x(s[i + 1]) {
            Some(v) => v,
            None => {
                return None;
            },
        };
        let v2 = match b64_val_x(s[i + 2]) {
            Some(v) => v,
            None => {
                return None;
            },
        };
        let ghost prev = out@;
        out.push((v0 << 2) | (v1 >> 4));
        out.push((v1 << 4) | (v2 >> 2));
        proof {
            assert(out@ =~= prev + seq![dec_b0(tail[0], tail[1]), dec_b1(tail[1], tail[2])]);
        }
        Some(out)
    }
}

/// Every byte of a base64url encoding is a digit; in particular none is
/// a period.
pub proof fn lemma_base64url_chars(s: Seq<u8>)
    ensures
        forall|k: int|
            0 <= k < spec_base64url(s).len() ==> is_b64(#[trigger] spec_base64url(s)[k])
                && spec_base64url(s)[k] != 46,
    decreases s.len(),
{
    if s.len() == 0 {
    } else if s.len() == 1 {
        lemma_sextet_range(s[0], 0, 0);
        assert forall|k: int| 0 <= k < spec_base64url(s).len() implies is_b64(
            #[trigger] spec_base64url(s)[k],
        ) && spec_base64url(s)[k] != 46 by {
            if k == 0 {
                lemma_char_inv(s[0] >> 2);
            } else {
                lemma_char_inv((s[0] & 3) << 4);
            }
        }
    } else if s.len() == 2 {
        lemma_sextet_range(s[0], s[1], 0);
        assert forall|k: int| 0 <= k < spec_base64url(s).len() implies is_b64(
            #[trigger] spec_base64url(s)[k],
        ) && spec_base64url(s)[k] != 46 by {
            if k == 0 {
                lemma_char_inv(s[0] >> 2);
            } else if k == 1 {
                lemma_char_inv(((s[0] & 3) << 4) | (s[1] >> 4));
            } else {
                lemma_char_inv((s[1] & 15) << 2);
            }
        }
    } else {
        lemma_base64url_chars(s.skip(3));
        lemma_sextet_range(s[0], s[1], s[2]);
        assert forall|k: int| 0 <= k < spec_base64url(s).len() implies is_b64(
            #[trigger] spec_base64url(s)[k],
        ) && spec_base64url(s)[k] != 46 by {
            if k == 0 {
                lemma_char_inv(s[0] >> 2);
            } else if k == 1 {
                lemma_char_inv(((s[0] & 3) << 4) | (s[1] >> 4));
            } else if k == 2 {
                lemma_char_inv(((s[1] & 15) << 2) | (s[2] >> 6));
            } else if k == 3 {
                lemma_char_inv(s[2] & 63);
            } else {
                assert(spec_base64url(s)[k] == spec_base64url(s.skip(3))[k - 4]);
            }
        }
    }
}

/// Decoding undoes encoding: base64url is injective and lossless.
pub proof fn lemma_b64_round_trip(s: Seq<u8>)
    ensures
        spec_b64_decode(spec_base64url(s)) == Some(s),
    decreases s.len(),
{
    if s.len() == 0 {
        assert(spec_base64url(s) =~= Seq::<u8>::empty());
    } else if s.len() == 1 {
        let b0 = s[0];
        lemma_sextet_range(b0, 0, 0);
        lemma_char_inv(b0 >> 2);
        lemma_char_inv((b0 & 3) << 4);
        assert(((b0 >> 2) << 2) | (((b0 & 3) << 4) >> 4) == b0) by (bit_vector);
        assert(seq![b0] =~= s);
    } else if s.len() == 2 {
        let b0 = s[0];
        let b1 = s[1];
        lemma_sextet_range(b0, b1, 0);
        lemma_char_inv(b0 >> 2);
        lemma_char_inv(((b0 & 3) << 4) | (b1 >> 4));
        lemma_char_inv((b1 & 15) << 2);
        assert(((b0 >> 2) << 2) | ((((b0 & 3) << 4) | (b1 >> 4)) >> 4) == b0) by (bit_vector);
        assert(((((b0 & 3) << 4) | (b1 >> 4)) << 4) | (((b1 & 15) << 2) >> 2) == b1)
            by (bit_vector);
        assert(seq![b0, b1] =~= s);
    } else {
        let b0 = s[0];
        let b1 = s[1];
        let b2 = s[2];
        lemma_b64_round_trip(s.skip(3));
        lemma_base64url_chars(s.skip(3));
        lemma_sextet_range(b0, b1, b2);
        lemma_char_inv(b0 >> 2);
        lemma_char_inv(((b0 & 3) << 4) | (b1 >> 4));
        lemma_char_inv(((b1 & 15) << 2) | (b2 >> 6));
        lemma_char_inv(b2 & 63);
        let e = spec_base64url(s);
        let g = enc3(b0, b1, b2);
        let rest = spec_base64url(s.skip(3));
        assert(e == g + rest);
        assert(e.len() == 4 + rest.len());
        assert(e[0] == g[0] && e[1] == g[1] && e[2] == g[2] && e[3] == g[3]);
        assert(e.skip(4) =~= rest);
        assert(((b0 >> 2) << 2) | ((((b0 & 3) << 4) | (b1 >> 4)) >> 4) == b0) by (bit_vector);
        assert(((((b0 & 3) << 4) | (b1 >> 4)) << 4) | ((((b1 & 15) << 2) | (b2 >> 6)) >> 2) == b1)
            by (bit_vector);
        assert(((((b1 & 15) << 2) | (b2 >> 6)) << 6) | (b2 & 63) == b2) by (bit_vector);
        assert(dec_b0(e[0], e[1]) == b0);
        assert(dec_b1(e[1], e[2]) == b1);
        assert(dec_b2(e[2], e[3]) == b2);
        if rest.len() == 0 {
            assert(e.len() == 4);
            assert(spec_b64_decode(e.skip(4)) == Some(Seq::<u8>::empty()));
        }
        assert(spec_b64_decode(e) == Some(seq![b0, b1, b2] + s.skip(3)));
        assert(seq![b0, b1, b2] + s.skip(3) =~= s);
    }
}

/// The position of the first occurrence of `b` in `s`, if any.
pub open spec fn spec_find(s: Seq<u8>, b: u8) -> Option<int>
    decreases s.len(),
{
    if s.len() == 0 {
        None
    } else if s[0] == b {
        Some(0)
    } else {
        match spec_find(s.skip(1), b) {
            Some(k) => Some(k + 1),
            None => None,
        }
    }
}

/// [`spec_find`] returns the least index holding `b`, or `None` when
/// `b` does not occur.
pub proof fn lemma_find_char(s: Seq<u8>, b: u8)
    ensures
        match spec_find(s, b) {
            Some(k) => 0 <= k < s.len() && s[k] == b && (forall|j: int| 0 <= j < k ==> s[j] != b),
            None => forall|j: int| 0 <= j < s.len() ==> s[j] != b,
        },
    decreases s.len(),
{
    if s.len() == 0 {
    } else if s[0] == b {
    } else {
        lemma_find_char(s.skip(1), b);
        match spec_find(s.skip(1), b) {
            Some(k) => {
                assert(s.skip(1)[k] == s[k + 1]);
                assert forall|j: int| 0 <= j < k + 1 implies s[j] != b by {
                    if j > 0 {
                        assert(s.skip(1)[j - 1] == s[j]);
                    }
                }
            },
            None => {
                assert forall|j: int| 0 <= j < s.len() implies s[j] != b by {
                    if j > 0 {
                        assert(s.skip(1)[j - 1] == s[j]);
                    }
                }
            },
        }
    }
}

/// A least witness determines [`spec_find`].
pub proof fn lemma_find_at(s: Seq<u8>, b: u8, k: int)
    requires
        0 <= k < s.len(),
        s[k] == b,
        forall|j: int| 0 <= j < k ==> s[j] != b,
    ensures
        spec_find(s, b) == Some(k),
{
    lemma_find_char(s, b);
    match spec_find(s, b) {
        Some(k2) => {
            if k2 < k {
                assert(s[k2] != b);
            } else if k2 > k {
                assert(s[k] != b);
            }
        },
        None => {
            assert(s[k] != b);
        },
    }
}

/// Absence of any witness determines [`spec_find`].
pub proof fn lemma_find_none(s: Seq<u8>, b: u8)
    requires
        forall|j: int| 0 <= j < s.len() ==> s[j] != b,
    ensures
        spec_find(s, b) is None,
{
    lemma_find_char(s, b);
    if let Some(k) = spec_find(s, b) {
        assert(s[k] != b);
    }
}

/// A witness rules `None` out for [`spec_find`].
pub proof fn lemma_find_some(s: Seq<u8>, b: u8, k: int)
    requires
        0 <= k < s.len(),
        s[k] == b,
    ensures
        spec_find(s, b) is Some,
{
    lemma_find_char(s, b);
    if spec_find(s, b) is None {
        assert(s[k] != b);
    }
}

/// The first position of `b` in `s` at or after `from`.
pub fn find_byte(s: &[u8], from: usize, b: u8) -> (r: Option<usize>)
    requires
        from <= s@.len(),
    ensures
        match r {
            Some(k) => from <= k < s@.len() && s@[k as int] == b && (forall|j: int|
                from <= j < k ==> s@[j] != b),
            None => forall|j: int| from <= j < s@.len() ==> s@[j] != b,
        },
{
    let n = s.len();
    let mut i = from;
    while i < n
        invariant
            from <= i <= n,
            n == s@.len(),
            forall|j: int| from <= j < i ==> s@[j] != b,
        decreases n - i,
    {
        if s[i] == b {
            return Some(i);
        }
        i += 1;
    }
    None
}

/// The JSON member `"alg":"<token>"`.
pub open spec fn spec_alg_member(a: Algorithm) -> Seq<u8> {
    seq![34u8, 97u8, 108u8, 103u8, 34u8, 58u8, 34u8] + spec_token(a) + seq![34u8]
}

/// The protected header as one flat JSON object: the `alg` member when
/// the identifier is set, followed by the caller's raw members.
pub open spec fn spec_protected_json(alg: Option<Algorithm>, members: Seq<u8>) -> Seq<u8> {
    match alg {
        Some(a) => if members.len() == 0 {
            seq![123u8] + spec_alg_member(a) + seq![125u8]
        } else {
            seq![123u8] + spec_alg_member(a) + seq![44u8] + members + seq![125u8]
        },
        None => seq![123u8] + members + seq![125u8],
    }
}

/// Serializes the protected header; `members` is the caller's extra
/// fields as raw JSON members, flattened beside `alg`.
pub fn protected_json(alg: Option<Algorithm>, members: &[u8]) -> (r: Vec<u8>)
    ensures
        r@ == spec_protected_json(alg, members@),
{
    let mut r: Vec<u8> = Vec::new();
    r.push(123);
    match alg {
        Some(a) => {
            r.push(34);
            r.push(97);
            r.push(108);
            r.push(103);
            r.push(34);
            r.push(58);
            r.push(34);
            let t = a.token();
            push_all(&mut r, t.as_slice());
            r.push(34);
            if members.len() > 0 {
                r.push(44);
                push_all(&mut r, members);
            }
        },
        None => {
            push_all(&mut r, members);
        },
    }
    r.push(125);
    proof {
        assert(r@ =~= spec_protected_json(alg, members@));
    }
    r
}

/// The opening bytes `{"alg":"` of a protected header whose first
/// member is the algorithm.
pub open spec fn spec_alg_prefix() -> Seq<u8> {
    seq![123u8, 34u8, 97u8, 108u8, 103u8, 34u8, 58u8, 34u8]
}

/// The algorithm identifier read back from a protected-header JSON
/// object whose first member is `alg`, as [`protected_json`] writes it.
pub open spec fn spec_protected_alg(j: Seq<u8>) -> Option<Algorithm> {
    if j.len() >= 8 && j.subrange(0, 8) == spec_alg_prefix() {
        match spec_find(j.skip(8), 34) {
            Some(k) => spec_parse_token(j.skip(8).subrange(0, k)),
            None => None,
        }
    } else {
        None
    }
}

/// Reads the algorithm identifier out of a protected-header JSON
/// object, when its first member is `alg`.
pub fn protected_alg(j: &[u8]) -> (r: Option<Algorithm>)
    ensures
        r == spec_protected_alg(j@),
{
    if j.len() < 8 {
        return None;
    }
    let prefix = slice_subrange(j, 0, 8);
    let mut expected: Vec<u8> = Vec::new();
    expected.push(123);
    expected.push(34);
    expected.push(97);
    expected.push(108);
    expected.push(103);
    expected.push(34);
    expected.push(58);
    expected.push(34);
    proof {
        assert(expected@ =~= spec_alg_prefix());
    }
    if !bytes_eq(prefix, expected.as_slice()) {
        return None;
    }
    match find_byte(j, 8, 34) {
        Some(k) => {
            proof {
                let rest = j@.skip(8);
                assert(rest[k - 8] == j@[k as int]);
                assert forall|jj: int| 0 <= jj < k - 8 implies rest[jj] != 34 by {
                    assert(rest[jj] == j@[jj + 8]);
                }
                lemma_find_at(rest, 34, k - 8);
            }
            let tok = slice_subrange(j, 8, k);
            proof {
                assert(tok@ =~= j@.skip(8).subrange(0, k - 8));
            }
            Algorithm::parse_token(tok)
        },
        None => {
            proof {
                let rest = j@.skip(8);
                assert forall|jj: int| 0 <= jj < rest.len() implies rest[jj] != 34 by {
                    assert(rest[jj] == j@[jj + 8]);
                }
                lemma_find_none(rest, 34);
            }
            None
        },
    }
}

/// The algorithm identifier round-trips through the protected header:
/// writing a header whose identifier is set, then reading it back,
/// recovers the identifier, whatever the caller's members hold.
pub proof fn lemma_protected_alg_round_trip(a: Algorithm, members: Seq<u8>)
    ensures
        spec_protected_alg(spec_protected_json(Some(a), members)) == Some(a),
{
    let j = spec_protected_json(Some(a), members);
    let t = spec_token(a);
    lemma_token_no_quote(a);
    assert(j.subrange(0, 8) =~= spec_alg_prefix());
    let rest = j.skip(8);
    if members.len() == 0 {
        assert(rest =~= t + seq![34u8] + seq![125u8]);
    } else {
        assert(rest =~= t + seq![34u8] + (seq![44u8] + members + seq![125u8]));
    }
    assert(rest[t.len() as int] == 34);
    assert forall|jj: int| 0 <= jj < t.len() implies rest[jj] != 34 by {
        assert(rest[jj] == t[jj]);
    }
    lemma_find_at(rest, 34, t.len() as int);
    assert(rest.subrange(0, t.len() as int) =~= t);
    lemma_parse_of_token(a);
}

/// The RFC 7515 signing input:
/// `BASE64URL(protected) "." BASE64URL(payload)`.
pub open spec fn spec_signing_input(protected: Seq<u8>, payload: Seq<u8>) -> Seq<u8> {
    spec_base64url(protected) + seq![46u8] + spec_base64url(payload)
}

/// Assembles the signing input from the protected-header JSON bytes and
/// the payload bytes.
pub fn signing_input(protected: &[u8], payload: &[u8]) -> (r: Vec<u8>)
    ensures
        r@ == spec_signing_input(protected@, payload@),
{
    let mut r = base64url(protected);
    r.push(46);
    let pl = base64url(payload);
    push_all(&mut r, pl.as_slice());
    proof {
        assert(r@ =~= spec_signing_input(protected@, payload@));
    }
    r
}

/// The compact wire form:
/// `BASE64URL(protected) "." BASE64URL(payload) "." BASE64URL(signature)`.
pub open spec fn spec_compact_wire(protected: Seq<u8>, payload: Seq<u8>, sig: Seq<u8>) -> Seq<u8> {
    spec_signing_input(protected, payload) + seq![46u8] + spec_base64url(sig)
}

/// Assembles the compact wire form; its first two segments are exactly
/// the signing input.
pub fn compact_wire(protected: &[u8], payload: &[u8], sig: &[u8]) -> (r: Vec<u8>)
    ensures
        r@ == spec_compact_wire(protected@, payload@, sig@),
{
    let mut r = signing_input(protected, payload);
    r.push(46);
    let sg = base64url(sig);
    push_all(&mut r, sg.as_slice());
    proof {
        assert(r@ =~= spec_compact_wire(protected@, payload@, sig@));
    }
    r
}

/// Splits a compact wire form at its two periods and base64url-decodes
/// the three segments: `(protected, payload, signature)` bytes.
pub open spec fn spec_decode_compact(w: Seq<u8>) -> Option<(Seq<u8>, Seq<u8>, Seq<u8>)> {
    match spec_find(w, 46) {
        None => None,
        Some(k1) => {
            let rest = w.skip(k1 + 1);
            match spec_find(rest, 46) {
                None => None,
                Some(k2) => {
                    let sg = rest.skip(k2 + 1);
                    if spec_find(sg, 46) is Some {
                        None
                    } else {
                        match (spec_b64_decode(w.subrange(0, k1)), spec_b64_decode(
                            rest.subrange(0, k2),
                        ), spec_b64_decode(sg)) {
                            (Some(p), Some(pl), Some(g)) => Some((p, pl, g)),
                            _ => None,
                        }
                    }
                },
            }
        },
    }
}

/// Parses a compact wire form into its decoded `(protected, payload,
/// signature)` byte strings; `None` on anything but three period-joined
/// base64url segments.
pub fn decode_compact(w: &[u8]) -> (r: Option<(Vec<u8>, Vec<u8>, Vec<u8>)>)
    ensures
        match r {
            Some(t) => spec_decode_compact(w@) == Some((t.0@, t.1@, t.2@)),
            None => spec_decode_compact(w@) is None,
        },
{
    let n = w.len();
    let k1 = match find_byte(w, 0, 46) {
        Some(k) => k,
        None => {
            proof {
                lemma_find_none(w@, 46);
            }
            return None;
        },
    };
    proof {
        lemma_find_at(w@, 46, k1 as int);
    }
    let ghost rest = w@.skip(k1 as int + 1);
    let k2 = match find_byte(w, k1 + 1, 46) {
        Some(k) => k,
        None => {
            proof {
                assert forall|jj: int| 0 <= jj < rest.len() implies rest[jj] != 46 by {
                    assert(rest[jj] == w@[jj + k1 + 1]);
                }
                lemma_find_none(rest, 46);
            }
            return None;
        },
    };
    proof {
        assert(rest[k2 - k1 - 1] == w@[k2 as int]);
        assert forall|jj: int| 0 <= jj < k2 - k1 - 1 implies rest[jj] != 46 by {
            assert(rest[jj] == w@[jj + k1 + 1]);
        }
        lemma_find_at(rest, 46, k2 - k1 - 1);
    }
    let ghost sgseg = rest.skip(k2 - k1);
    proof {
        assert(sgseg =~= w@.skip(k2 as int + 1));
    }
    match find_byte(w, k2 + 1, 46) {
        Some(k3) => {
            proof {
                assert(sgseg[k3 - k2 - 1] == w@[k3 as int]);
                lemma_find_some(sgseg, 46, k3 - k2 - 1);
            }
            return None;
        },
        None => {
            proof {
                assert forall|jj: int| 0 <= jj < sgseg.len() implies sgseg[jj] != 46 by {
                    assert(sgseg[jj] == w@[jj + k2 + 1]);
                }
                lemma_find_none(sgseg, 46);
            }
        },
    }
    let pseg = slice_subrange(w, 0, k1);
    let plseg = slice_subrange(w, k1 + 1, k2);
    let sseg = slice_subrange(w, k2 + 1, n);
    proof {
        assert(plseg@ =~= rest.subrange(0, k2 - k1 - 1));
        assert(sseg@ =~= sgseg);
    }
    let p = match b64_decode(pseg) {
        Some(v) => v,
        None => {
            return None;
        },
    };
    let pl = match b64_decode(plseg) {
        Some(v) => v,
        None => {
            return None;
        },
    };
    let sg = match b64_decode(sseg) {
        Some(v) => v,
        None => {
            return None;
        },
    };
    Some((p, pl, sg))
}

/// Round trip through the compact wire form: assembling three byte
/// strings and splitting the result recovers them exactly.
pub proof fn lemma_compact_wire_round_trip(protected: Seq<u8>, payload: Seq<u8>, sig: Seq<u8>)
    ensures
        spec_decode_compact(spec_compact_wire(protected, payload, sig)) == Some(
            (protected, payload, sig),
        ),
{
    let ep = spec_base64url(protected);
    let epl = spec_base64url(payload);
    let esg = spec_base64url(sig);
    let w = spec_compact_wire(protected, payload, sig);
    lemma_base64url_chars(protected);
    lemma_base64url_chars(payload);
    lemma_base64url_chars(sig);
    assert(w =~= ep + seq![46u8] + epl + seq![46u8] + esg);
    let n0 = ep.len() as int;
    assert(w[n0] == 46);
    assert forall|j: int| 0 <= j < n0 implies w[j] != 46 by {
        assert(w[j] == ep[j]);
    }
    lemma_find_at(w, 46, n0);
    let rest = w.skip(n0 + 1);
    assert(rest =~= epl + seq![46u8] + esg);
    let n1 = epl.len() as int;
    assert(rest[n1] == 46);
    assert forall|j: int| 0 <= j < n1 implies rest[j] != 46 by {
        assert(rest[j] == epl[j]);
    }
    lemma_find_at(rest, 46, n1);
    let sg = rest.skip(n1 + 1);
    assert(sg =~= esg);
    lemma_find_none(sg, 46);
    assert(w.subrange(0, n0) =~= ep);
    assert(rest.subrange(0, n1) =~= epl);
    lemma_b64_round_trip(protected);
    lemma_b64_round_trip(payload);
    lemma_b64_round_trip(sig);
}

} // verus!
