//! QR wire format: a fixed 13-byte public header, the obfuscated proof and
//! the challenge, each base58-encoded, joined with single `;` separators.

use vstd::prelude::*;
use crate::api::{Public, ProofQrCode, QrError, Relation};
use crate::field::be_val;

verus! {

/// The ASCII code of the token separator `;`.
pub const SEPARATOR: u8 = 59;

/// Unsigned reading of a 32-bit two's-complement value.
pub open spec fn u32_of_i32(x: i32) -> u32 {
    if x >= 0 {
        x as u32
    } else {
        (x + 0x100000000) as u32
    }
}

/// Signed reading of 32 bits, inverse of `u32_of_i32`.
pub open spec fn i32_of_u32(u: u32) -> i32 {
    if u < 0x80000000 {
        u as i32
    } else {
        (u - 0x100000000) as i32
    }
}

pub proof fn lemma_i32_u32_round_trip(x: i32)
    ensures
        i32_of_u32(u32_of_i32(x)) == x,
{
}

/// Big-endian bytes of a 32-bit value.
pub open spec fn u32_be(x: u32) -> Seq<u8> {
    seq![
        ((x >> 24) & 0xff) as u8,
        ((x >> 16) & 0xff) as u8,
        ((x >> 8) & 0xff) as u8,
        (x & 0xff) as u8,
    ]
}

/// Wire encoding of the relation: Younger is 0, anything else reads as
/// Older, and Older is written as 1.
pub open spec fn rel_byte(r: Relation) -> u8 {
    match r {
        Relation::Younger => 0u8,
        Relation::Older => 1u8,
    }
}

/// The packed 13-byte public header: today, now, delta as signed 32-bit
/// big-endian values, then the relation byte.
pub open spec fn header_bytes(p: Public) -> Seq<u8> {
    u32_be(u32_of_i32(p.today)) + u32_be(u32_of_i32(p.now)) + u32_be(u32_of_i32(p.delta))
        + seq![rel_byte(p.relation)]
}

/// Strict reading of a packed header: at least 13 bytes, extra bytes
/// ignored; a relation byte other than 0 reads as Older.
pub open spec fn header_parse(b: Seq<u8>) -> Option<Public> {
    if b.len() < 13 {
        None
    } else {
        Some(Public {
            today: i32_of_u32(be_val(b.subrange(0, 4)) as u32),
            now: i32_of_u32(be_val(b.subrange(4, 8)) as u32),
            delta: i32_of_u32(be_val(b.subrange(8, 12)) as u32),
            relation: if b[12] == 0 { Relation::Younger } else { Relation::Older },
        })
    }
}

proof fn lemma_u32_be_val(u: u32)
    ensures
        be_val(u32_be(u)) == u,
{
    crate::mimc::lemma_u32_be_val(u, u32_be(u));
}

/// Packing a header and reading it back gives the header verbatim.
pub proof fn lemma_header_round_trip(p: Public)
    ensures
        header_parse(header_bytes(p)) == Some(p),
{
    let h = header_bytes(p);
    assert(h.len() == 13);
    assert(h.subrange(0, 4) =~= u32_be(u32_of_i32(p.today)));
    assert(h.subrange(4, 8) =~= u32_be(u32_of_i32(p.now)));
    assert(h.subrange(8, 12) =~= u32_be(u32_of_i32(p.delta)));
    lemma_u32_be_val(u32_of_i32(p.today));
    lemma_u32_be_val(u32_of_i32(p.now));
    lemma_u32_be_val(u32_of_i32(p.delta));
    lemma_i32_u32_round_trip(p.today);
    lemma_i32_u32_round_trip(p.now);
    lemma_i32_u32_round_trip(p.delta);
    assert(h[12] == rel_byte(p.relation));
    let q = header_parse(h);
    match p.relation {
        Relation::Younger => {
            assert(q == Some(p));
        },
        Relation::Older => {
            assert(q == Some(p));
        },
    }
}

fn i32_to_u32(x: i32) -> (u: u32)
    ensures
        u == u32_of_i32(x),
{
    if x >= 0 {
        x as u32
    } else {
        ((x as i64) + 0x100000000i64) as u32
    }
}

fn u32_to_i32(u: u32) -> (x: i32)
    ensures
        x == i32_of_u32(u),
{
    if u < 0x80000000 {
        u as i32
    } else {
        ((u as i64) - 0x100000000i64) as i32
    }
}

fn push_u32_be(v: &mut Vec<u8>, u: u32)
    ensures
        final(v)@ =~= old(v)@ + u32_be(u),
{
    v.push(((u >> 24) & 0xff) as u8);
    v.push(((u >> 16) & 0xff) as u8);
    v.push(((u >> 8) & 0xff) as u8);
    v.push((u & 0xff) as u8);
}

/// Serialize the public header into its packed 13-byte form.
pub fn pack_header(p: &Public) -> (r: Vec<u8>)
    ensures
        r@ =~= header_bytes(*p),
{
    let mut r: Vec<u8> = Vec::new();
    push_u32_be(&mut r, i32_to_u32(p.today));
    push_u32_be(&mut r, i32_to_u32(p.now));
    push_u32_be(&mut r, i32_to_u32(p.delta));
    match p.relation {
        Relation::Younger => r.push(0u8),
        Relation::Older => r.push(1u8),
    }
    proof {
        assert(r@ =~= header_bytes(*p));
    }
    r
}

fn read_u32_be(b: &Vec<u8>, at: usize) -> (u: u32)
    requires
        at + 4 <= b@.len(),
        at + 4 <= usize::MAX,
    ensures
        u == be_val(b@.subrange(at as int, at + 4)),
{
    let u: u32 = (b[at] as u32) * 0x1000000 + (b[at + 1] as u32) * 0x10000 + (b[at + 2] as u32)
        * 0x100 + (b[at + 3] as u32);
    proof {
        let s = b@.subrange(at as int, at + 4);
        assert(s =~= seq![b@[at as int], b@[at + 1], b@[at + 2], b@[at + 3]]);
        crate::field::lemma_be_val_push(seq![s[0], s[1], s[2]], s[3]);
        crate::field::lemma_be_val_push(seq![s[0], s[1]], s[2]);
        crate::field::lemma_be_val_push(seq![s[0]], s[1]);
        crate::field::lemma_be_val_push(Seq::<u8>::empty(), s[0]);
        assert(seq![s[0], s[1], s[2], s[3]] =~= seq![s[0], s[1], s[2]].push(s[3]));
        assert(seq![s[0], s[1], s[2]] =~= seq![s[0], s[1]].push(s[2]));
        assert(seq![s[0], s[1]] =~= seq![s[0]].push(s[1]));
        assert(seq![s[0]] =~= Seq::<u8>::empty().push(s[0]));
    }
    u
}

/// Read a packed header back. At least 13 bytes are required; extra bytes
/// are ignored; a relation byte other than 0 reads as Older.
pub fn unpack_header(b: &Vec<u8>) -> (r: Result<Public, QrError>)
    ensures
        match r {
            Ok(p) => header_parse(b@) == Some(p),
            Err(_) => header_parse(b@) == None::<Public>,
        },
{
    if b.len() < 13 {
        return Err(QrError {});
    }
    let today = u32_to_i32(read_u32_be(b, 0));
    let now = u32_to_i32(read_u32_be(b, 4));
    let delta = u32_to_i32(read_u32_be(b, 8));
    let relation = if b[12] == 0 {
        Relation::Younger
    } else {
        Relation::Older
    };
    Ok(Public { today, now, relation, delta })
}

/// No byte of `s` is the token separator.
pub open spec fn no_semi(s: Seq<u8>) -> bool {
    forall|i: int| 0 <= i < s.len() ==> s[i] != SEPARATOR
}

/// Base58 encoding of a byte string, as ASCII bytes.
pub uninterp spec fn b58_of(b: Seq<u8>) -> Seq<u8>;

/// Base58 decoding of ASCII bytes: the decoded bytes, or nothing when the
/// input is not a base58 string.
pub uninterp spec fn b58_dec(s: Seq<u8>) -> Option<Seq<u8>>;

/// Relies on bs58::encode with its default Bitcoin alphabet: the output is
/// a function of the input bytes alone, drawn from 58 ASCII digits and
/// letters — so never the `;` separator, and always below 128 — and
/// bs58::decode maps it back to the input bytes.
#[verifier::external_body]
fn b58_encode(b: &Vec<u8>) -> (r: Vec<u8>)
    ensures
        r@ == b58_of(b@),
        no_semi(r@),
        forall|i: int| 0 <= i < r@.len() ==> r@[i] < 128,
        b58_dec(r@) == Some(b@),
{
    bs58::encode(b.as_slice()).into_vec()
}

/// Relies on bs58::decode with its default Bitcoin alphabet: the result is
/// a function of the input bytes alone, and the call fails exactly on
/// inputs that are not base58 strings.
#[verifier::external_body]
fn b58_decode(s: &Vec<u8>) -> (r: Result<Vec<u8>, QrError>)
    ensures
        match r {
            Ok(v) => b58_dec(s@) == Some(v@),
            Err(_) => b58_dec(s@) == None::<Seq<u8>>,
        },
{
    match bs58::decode(s.as_slice()).into_vec() {
        Ok(v) => Ok(v),
        Err(_) => Err(QrError {}),
    }
}

/// Relies on String::from_utf8: bytes below 128 are single-byte UTF-8
/// code points, so the conversion cannot fail and the UTF-8 encoding of
/// the result is the input byte-for-byte.
#[verifier::external_body]
fn ascii_to_string(v: Vec<u8>) -> (r: String)
    requires
        forall|i: int| 0 <= i < v@.len() ==> v@[i] < 128,
    ensures
        vstd::utf8::encode_utf8(r@) == v@,
{
    String::from_utf8(v).unwrap()
}

/// Positions of the separator bytes in `s`, in increasing order.
pub open spec fn semi_idxs(s: Seq<u8>) -> Seq<int>
    decreases s.len(),
{
    if s.len() == 0 {
        Seq::empty()
    } else if s.last() == SEPARATOR {
        semi_idxs(s.drop_last()).push(s.len() - 1)
    } else {
        semi_idxs(s.drop_last())
    }
}

pub proof fn lemma_semi_idxs_none(s: Seq<u8>)
    requires
        no_semi(s),
    ensures
        semi_idxs(s).len() == 0,
    decreases s.len(),
{
    if s.len() > 0 {
        assert(s.last() != SEPARATOR);
        assert(no_semi(s.drop_last()));
        lemma_semi_idxs_none(s.drop_last());
    }
}

pub proof fn lemma_semi_idxs_props(s: Seq<u8>)
    ensures
        forall|i: int|
            0 <= i < semi_idxs(s).len() ==> (0 <= #[trigger] semi_idxs(s)[i] < s.len()
                && s[semi_idxs(s)[i]] == SEPARATOR),
        forall|i: int, j: int|
            #![trigger semi_idxs(s)[i], semi_idxs(s)[j]]
            0 <= i < j < semi_idxs(s).len() ==> semi_idxs(s)[i] < semi_idxs(s)[j],
    decreases s.len(),
{
    if s.len() > 0 {
        lemma_semi_idxs_props(s.drop_last());
        let d = s.drop_last();
        let ix0 = semi_idxs(d);
        assert(forall|k: int| 0 <= k < s.len() - 1 ==> d[k] == #[trigger] s[k]);
        assert forall|i: int|
            0 <= i < semi_idxs(s).len() implies (0 <= semi_idxs(s)[i] < s.len()
            && s[semi_idxs(s)[i]] == SEPARATOR) by {
            if s.last() == SEPARATOR {
                assert(semi_idxs(s) == ix0.push(s.len() - 1));
                if i < ix0.len() {
                    assert(semi_idxs(s)[i] == ix0[i]);
                    assert(d[ix0[i]] == s[ix0[i]]);
                } else {
                    assert(semi_idxs(s)[i] == s.len() - 1);
                    assert(s[s.len() - 1] == s.last());
                }
            } else {
                assert(semi_idxs(s) == ix0);
                assert(d[ix0[i]] == s[ix0[i]]);
            }
        }
        assert forall|i: int, j: int|
            0 <= i < j < semi_idxs(s).len() implies semi_idxs(s)[i] < semi_idxs(s)[j] by {
            if s.last() == SEPARATOR {
                assert(semi_idxs(s) == ix0.push(s.len() - 1));
                if j < ix0.len() {
                } else {
                    assert(semi_idxs(s)[i] == ix0[i]);
                    assert(ix0[i] < d.len());
                }
            } else {
                assert(semi_idxs(s) == ix0);
            }
        }
    }
}

pub proof fn lemma_semi_idxs_append(a: Seq<u8>, b: Seq<u8>)
    ensures
        semi_idxs(a + b).len() == semi_idxs(a).len() + semi_idxs(b).len(),
        forall|i: int|
            0 <= i < semi_idxs(a).len() ==> #[trigger] semi_idxs(a + b)[i] == semi_idxs(a)[i],
        forall|i: int|
            0 <= i < semi_idxs(b).len() ==> #[trigger] semi_idxs(a + b)[semi_idxs(a).len() + i]
                == semi_idxs(b)[i] + a.len(),
    decreases b.len(),
{
    if b.len() == 0 {
        assert(a + b =~= a);
    } else {
        assert((a + b).drop_last() =~= a + b.drop_last());
        assert((a + b).last() == b.last());
        lemma_semi_idxs_append(a, b.drop_last());
    }
}

/// What the decoder recovers from a byte string: the three tokens, when
/// the string holds exactly two separators.
pub open spec fn split3(s: Seq<u8>) -> Option<(Seq<u8>, Seq<u8>, Seq<u8>)> {
    let ix = semi_idxs(s);
    if ix.len() == 2 {
        Some(
            (
                s.subrange(0, ix[0]),
                s.subrange(ix[0] + 1, ix[1]),
                s.subrange(ix[1] + 1, s.len() as int),
            ),
        )
    } else {
        None
    }
}

/// Joining three separator-free tokens and splitting again recovers the
/// tokens verbatim.
pub proof fn lemma_split3_join(a: Seq<u8>, b: Seq<u8>, c: Seq<u8>)
    requires
        no_semi(a),
        no_semi(b),
        no_semi(c),
    ensures
        ({
            let j = a + seq![SEPARATOR] + b + seq![SEPARATOR] + c;
            split3(j) matches Some(t) && t.0 =~= a && t.1 =~= b && t.2 =~= c
        }),
{
    let s1 = seq![SEPARATOR];
    assert(s1.drop_last() =~= Seq::<u8>::empty());
    assert(semi_idxs(Seq::<u8>::empty()) =~= Seq::<int>::empty());
    assert(s1.last() == SEPARATOR);
    assert(semi_idxs(s1) == semi_idxs(s1.drop_last()).push(0));
    assert(semi_idxs(s1) =~= seq![0int]);
    lemma_semi_idxs_none(a);
    lemma_semi_idxs_none(b);
    lemma_semi_idxs_none(c);
    lemma_semi_idxs_append(a, s1);
    lemma_semi_idxs_append(a + s1, b);
    lemma_semi_idxs_append(a + s1 + b, s1);
    lemma_semi_idxs_append(a + s1 + b + s1, c);
    let j = a + s1 + b + s1 + c;
    assert(semi_idxs(j).len() == 2);
    assert(semi_idxs(j)[0] == a.len());
    assert(semi_idxs(j)[1] == a.len() + 1 + b.len());
    assert(j.subrange(0, a.len() as int) =~= a);
    assert(j.subrange(a.len() as int + 1, (a.len() + 1 + b.len()) as int) =~= b);
    assert(j.subrange((a.len() + b.len() + 2) as int, j.len() as int) =~= c);
}

/// Abstract contents of a QR artifact: the public header fields, the
/// obfuscated proof bytes and the challenge bytes.
#[verifier::ext_equal]
pub struct QrView {
    pub public: Public,
    pub proof: Seq<u8>,
    pub challenge: Seq<u8>,
}

impl View for ProofQrCode {
    type V = QrView;

    open spec fn view(&self) -> QrView {
        QrView { public: self.public, proof: self.proof@, challenge: self.challenge@ }
    }
}

/// The full wire encoding of an artifact.
pub open spec fn qr_encode(q: QrView) -> Seq<u8> {
    b58_of(header_bytes(q.public)) + seq![SEPARATOR] + b58_of(q.proof) + seq![SEPARATOR]
        + b58_of(q.challenge)
}

/// Strict decoding of a wire string: exactly three tokens, each of which
/// base58-decodes, and a header of at least 13 bytes.
pub open spec fn qr_decode(s: Seq<u8>) -> Option<QrView> {
    match split3(s) {
        None => None,
        Some(t) => match b58_dec(t.0) {
            None => None,
            Some(h) => match header_parse(h) {
                None => None,
                Some(p) => match (b58_dec(t.1), b58_dec(t.2)) {
                    (Some(pf), Some(ch)) => Some(QrView { public: p, proof: pf, challenge: ch }),
                    _ => None,
                },
            },
        },
    }
}

fn vec_range(v: &Vec<u8>, a: usize, b: usize) -> (r: Vec<u8>)
    requires
        a <= b <= v@.len(),
    ensures
        r@ =~= v@.subrange(a as int, b as int),
{
    let mut r: Vec<u8> = Vec::new();
    let mut i: usize = a;
    while i < b
        invariant
            a <= i <= b <= v@.len(),
            r@ =~= v@.subrange(a as int, i as int),
        decreases b - i,
    {
        r.push(v[i]);
        i += 1;
        proof {
            assert(r@ =~= v@.subrange(a as int, i as int));
        }
    }
    r
}

impl ProofQrCode {
    /// Encode the artifact as the QR wire string. The second clause is the
    /// round-trip law: decoding the encoding gives the artifact back
    /// byte-for-byte.
    pub fn to_string(&self) -> (r: String)
        ensures
            vstd::utf8::encode_utf8(r@) == qr_encode(self@),
            qr_decode(qr_encode(self@)) == Some(self@),
    {
        let header = pack_header(&self.public);
        let mut out = b58_encode(&header);
        let mut t1 = b58_encode(&self.proof);
        let mut t2 = b58_encode(&self.challenge);
        let ghost g0 = out@;
        let ghost g1 = t1@;
        let ghost g2 = t2@;
        out.push(SEPARATOR);
        out.append(&mut t1);
        out.push(SEPARATOR);
        out.append(&mut t2);
        proof {
            assert(header@ == header_bytes(self.public));
            assert(out@ =~= g0 + seq![SEPARATOR] + g1 + seq![SEPARATOR] + g2);
            assert(out@ == qr_encode(self@));
            lemma_split3_join(g0, g1, g2);
            lemma_header_round_trip(self.public);
            let t = split3(qr_encode(self@))->Some_0;
            assert(t.0 == g0 && t.1 == g1 && t.2 == g2);
            assert(qr_decode(qr_encode(self@)) == Some(self@));
            assert(forall|i: int| 0 <= i < out@.len() ==> out@[i] < 128);
        }
        ascii_to_string(out)
    }

    /// Decode a QR wire string. Succeeds exactly on strings whose bytes
    /// strictly decode; the decoded artifact is what the string denotes.
    pub fn from_str(s: &str) -> (r: Result<ProofQrCode, QrError>)
        ensures
            match r {
                Ok(q) => qr_decode(vstd::utf8::encode_utf8(s@)) == Some(q@),
                Err(_) => qr_decode(vstd::utf8::encode_utf8(s@)) == None::<QrView>,
            },
    {
        let bytes: Vec<u8> = s.as_bytes_vec();
        let ghost bs = bytes@;
        assert(bs == vstd::utf8::encode_utf8(s@));
        let mut semis: Vec<usize> = Vec::new();
        let mut i: usize = 0;
        while i < bytes.len()
            invariant
                i <= bs.len(),
                bytes@ == bs,
                semis@.map_values(|u: usize| u as int) =~= semi_idxs(bs.subrange(0, i as int)),
            decreases bs.len() - i,
        {
            let ghost prev = semis@;
            if bytes[i] == SEPARATOR {
                semis.push(i);
            }
            i += 1;
            proof {
                let p2 = bs.subrange(0, i as int);
                assert(p2.drop_last() =~= bs.subrange(0, i - 1));
                assert(p2.last() == bs[i - 1]);
                if bs[i - 1] == SEPARATOR {
                    assert(semis@.map_values(|u: usize| u as int) =~= prev.map_values(
                        |u: usize| u as int,
                    ).push((i - 1) as int));
                }
                assert(semis@.map_values(|u: usize| u as int) =~= semi_idxs(p2));
            }
        }
        proof {
            assert(bs.subrange(0, bs.len() as int) =~= bs);
        }
        if semis.len() != 2 {
            return Err(QrError {});
        }
        let i0 = semis[0];
        let i1 = semis[1];
        proof {
            lemma_semi_idxs_props(bs);
            assert(semis@.map_values(|u: usize| u as int)[0] == i0 as int);
            assert(semis@.map_values(|u: usize| u as int)[1] == i1 as int);
            assert(semi_idxs(bs)[0] == i0 as int && semi_idxs(bs)[1] == i1 as int);
        }
        let t0 = vec_range(&bytes, 0, i0);
        let t1 = vec_range(&bytes, i0 + 1, i1);
        let t2 = vec_range(&bytes, i1 + 1, bytes.len());
        proof {
            assert(split3(bs) matches Some(t) && t.0 == t0@ && t.1 == t1@ && t.2 == t2@);
        }
        let header = match b58_decode(&t0) {
            Ok(h) => h,
            Err(e) => {
                return Err(e);
            },
        };
        let public = match unpack_header(&header) {
            Ok(p) => p,
            Err(e) => {
                return Err(e);
            },
        };
        let proof_bytes = match b58_decode(&t1) {
            Ok(v) => v,
            Err(e) => {
                return Err(e);
            },
        };
        let challenge = match b58_decode(&t2) {
            Ok(v) => v,
            Err(e) => {
                return Err(e);
            },
        };
        let q = ProofQrCode { public, proof: proof_bytes, challenge };
        proof {
            assert(qr_decode(bs) == Some(q@));
        }
        Ok(q)
    }

    /// Base58 token of the packed public header.
    pub fn public_to_string(&self) -> (r: String)
        ensures
            vstd::utf8::encode_utf8(r@) == b58_of(header_bytes(self.public)),
    {
        let h = pack_header(&self.public);
        proof {
            assert(h@ == header_bytes(self.public));
        }
        ascii_to_string(b58_encode(&h))
    }

    /// Read a public header from its base58 token.
    pub fn public_from_str(s: &str) -> (r: Result<Public, QrError>)
        ensures
            match r {
                Ok(p) => header_token_parse(vstd::utf8::encode_utf8(s@)) == Some(p),
                Err(_) => header_token_parse(vstd::utf8::encode_utf8(s@)) == None::<Public>,
            },
    {
        let bytes: Vec<u8> = s.as_bytes_vec();
        match b58_decode(&bytes) {
            Ok(h) => unpack_header(&h),
            Err(e) => Err(e),
        }
    }

    /// Base58 token of the obfuscated proof bytes.
    pub fn proof_to_string(&self) -> (r: String)
        ensures
            vstd::utf8::encode_utf8(r@) == b58_of(self.proof@),
    {
        ascii_to_string(b58_encode(&self.proof))
    }

    /// Read the obfuscated proof bytes from their base58 token.
    pub fn proof_from_str(s: &str) -> (r: Result<Vec<u8>, QrError>)
        ensures
            match r {
                Ok(v) => b58_dec(vstd::utf8::encode_utf8(s@)) == Some(v@),
                Err(_) => b58_dec(vstd::utf8::encode_utf8(s@)) == None::<Seq<u8>>,
            },
    {
        let bytes: Vec<u8> = s.as_bytes_vec();
        b58_decode(&bytes)
    }

    /// Base58 token of the challenge bytes.
    pub fn challenge_to_string(&self) -> (r: String)
        ensures
            vstd::utf8::encode_utf8(r@) == b58_of(self.challenge@),
    {
        ascii_to_string(b58_encode(&self.challenge))
    }

    /// Read the challenge bytes from their base58 token.
    pub fn challenge_from_str(s: &str) -> (r: Result<Vec<u8>, QrError>)
        ensures
            match r {
                Ok(v) => b58_dec(vstd::utf8::encode_utf8(s@)) == Some(v@),
                Err(_) => b58_dec(vstd::utf8::encode_utf8(s@)) == None::<Seq<u8>>,
            },
    {
        let bytes: Vec<u8> = s.as_bytes_vec();
        b58_decode(&bytes)
    }
}

/// What the header token denotes: base58-decode, then read the packed
/// header.
pub open spec fn header_token_parse(t: Seq<u8>) -> Option<Public> {
    match b58_dec(t) {
        None => None,
        Some(h) => header_parse(h),
    }
}

} // verus!
