//! URL-safe base64 without padding, used for every key, value and directory that
//! crosses the wire. Decoding accepts exactly the strings that encoding produces.

use vstd::prelude::*;

use crate::text::{chars_of, push_char};

verus! {

/// Malformed encoded text: a character outside the alphabet, a length that no
/// byte sequence encodes to, or non-zero bits after the last full byte.
#[derive(Debug, Clone, Copy, PartialEq, Eq)]
pub struct EncodingError;

/// The character that stands for the six-bit value `v`.
pub open spec fn sextet_char(v: u8) -> char {
    if v < 26 {
        (v + 65) as char
    } else if v < 52 {
        (v + 71) as char
    } else if v < 62 {
        (v - 4) as char
    } else if v == 62 {
        '-'
    } else {
        '_'
    }
}

/// Whether `c` belongs to the URL-safe alphabet.
pub open spec fn is_alphabet_char(c: char) -> bool {
    ('A' <= c <= 'Z') || ('a' <= c <= 'z') || ('0' <= c <= '9') || c == '-' || c == '_'
}

/// The six-bit value of an alphabet character.
pub open spec fn char_sextet(c: char) -> u8 {
    if 'A' <= c <= 'Z' {
        (c as u32 - 65) as u8
    } else if 'a' <= c <= 'z' {
        (c as u32 - 71) as u8
    } else if '0' <= c <= '9' {
        (c as u32 + 4) as u8
    } else if c == '-' {
        62
    } else {
        63
    }
}

pub open spec fn all_alphabet(s: Seq<char>) -> bool {
    forall|i: int| 0 <= i < s.len() ==> is_alphabet_char(#[trigger] s[i])
}

/// The four characters for three bytes.
pub open spec fn encode_group(a: u8, b: u8, c: u8) -> Seq<char> {
    seq![
        sextet_char(a >> 2u8),
        sextet_char(((a & 3u8) << 4u8) | (b >> 4u8)),
        sextet_char(((b & 15u8) << 2u8) | (c >> 6u8)),
        sextet_char(c & 63u8),
    ]
}

/// The encoding of a byte sequence: four characters per three bytes, then two
/// characters for one trailing byte or three for two.
pub open spec fn encode_spec(b: Seq<u8>) -> Seq<char>
    decreases b.len(),
{
    if b.len() >= 3 {
        encode_group(b[0], b[1], b[2]) + encode_spec(b.skip(3))
    } else if b.len() == 2 {
        seq![
            sextet_char(b[0] >> 2u8),
            sextet_char(((b[0] & 3u8) << 4u8) | (b[1] >> 4u8)),
            sextet_char((b[1] & 15u8) << 2u8),
        ]
    } else if b.len() == 1 {
        seq![sextet_char(b[0] >> 2u8), sextet_char((b[0] & 3u8) << 4u8)]
    } else {
        seq![]
    }
}

pub open spec fn join_sextets_0(v0: u8, v1: u8) -> u8 {
    ((v0 << 2u8) | (v1 >> 4u8)) as u8
}

pub open spec fn join_sextets_1(v1: u8, v2: u8) -> u8 {
    ((v1 << 4u8) | (v2 >> 2u8)) as u8
}

pub open spec fn join_sextets_2(v2: u8, v3: u8) -> u8 {
    ((v2 << 6u8) | v3) as u8
}

/// The three bytes that the first four characters of `s` stand for.
pub open spec fn decode_group(s: Seq<char>) -> Seq<u8> {
    seq![
        join_sextets_0(char_sextet(s[0]), char_sextet(s[1])),
        join_sextets_1(char_sextet(s[1]), char_sextet(s[2])),
        join_sextets_2(char_sextet(s[2]), char_sextet(s[3])),
    ]
}

/// The bytes that `s` encodes, or `None` where `s` is no encoding of any bytes.
pub open spec fn decode_spec(s: Seq<char>) -> Option<Seq<u8>>
    decreases s.len(),
{
    if s.len() >= 4 {
        if all_alphabet(s.take(4)) {
            match decode_spec(s.skip(4)) {
                Some(rest) => Some(decode_group(s) + rest),
                None => None,
            }
        } else {
            None
        }
    } else if s.len() == 3 {
        if all_alphabet(s) && char_sextet(s[2]) & 3u8 == 0 {
            Some(
                seq![
                    join_sextets_0(char_sextet(s[0]), char_sextet(s[1])),
                    join_sextets_1(char_sextet(s[1]), char_sextet(s[2])),
                ],
            )
        } else {
            None
        }
    } else if s.len() == 2 {
        if all_alphabet(s) && char_sextet(s[1]) & 15u8 == 0 {
            Some(seq![join_sextets_0(char_sextet(s[0]), char_sextet(s[1]))])
        } else {
            None
        }
    } else if s.len() == 1 {
        None
    } else {
        Some(seq![])
    }
}

pub open spec fn prepend_bytes(front: Seq<u8>, rest: Option<Seq<u8>>) -> Option<Seq<u8>> {
    match rest {
        Some(r) => Some(front + r),
        None => None,
    }
}

proof fn lemma_sextet_char(v: u8)
    requires
        v < 64,
    ensures
        is_alphabet_char(sextet_char(v)),
        char_sextet(sextet_char(v)) == v,
{
}

proof fn lemma_group_bits(a: u8, b: u8, c: u8)
    ensures
        a >> 2u8 < 64,
        ((a & 3u8) << 4u8) | (b >> 4u8) < 64,
        ((b & 15u8) << 2u8) | (c >> 6u8) < 64,
        c & 63u8 < 64,
        (b & 15u8) << 2u8 < 64,
        (a & 3u8) << 4u8 < 64,
        ((b & 15u8) << 2u8) & 3u8 == 0,
        ((a & 3u8) << 4u8) & 15u8 == 0,
        join_sextets_0(a >> 2u8, ((a & 3u8) << 4u8) | (b >> 4u8)) == a,
        join_sextets_1(((a & 3u8) << 4u8) | (b >> 4u8), ((b & 15u8) << 2u8) | (c >> 6u8)) == b,
        join_sextets_2(((b & 15u8) << 2u8) | (c >> 6u8), c & 63u8) == c,
        join_sextets_1(((a & 3u8) << 4u8) | (b >> 4u8), (b & 15u8) << 2u8) == b,
        join_sextets_0(a >> 2u8, (a & 3u8) << 4u8) == a,
{
    assert(a >> 2u8 < 64) by (bit_vector);
    assert(((a & 3u8) << 4u8) | (b >> 4u8) < 64) by (bit_vector);
    assert(((b & 15u8) << 2u8) | (c >> 6u8) < 64) by (bit_vector);
    assert(c & 63u8 < 64) by (bit_vector);
    assert((b & 15u8) << 2u8 < 64) by (bit_vector);
    assert((a & 3u8) << 4u8 < 64) by (bit_vector);
    assert(((b & 15u8) << 2u8) & 3u8 == 0) by (bit_vector);
    assert(((a & 3u8) << 4u8) & 15u8 == 0) by (bit_vector);
    assert((((a >> 2u8) << 2u8) | ((((a & 3u8) << 4u8) | (b >> 4u8)) >> 4u8)) as u8 == a)
        by (bit_vector);
    assert((((((a & 3u8) << 4u8) | (b >> 4u8)) << 4u8) | ((((b & 15u8) << 2u8) | (c >> 6u8))
        >> 2u8)) as u8 == b) by (bit_vector);
    assert((((((b & 15u8) << 2u8) | (c >> 6u8)) << 6u8) | (c & 63u8)) as u8 == c)
        by (bit_vector);
    assert((((((a & 3u8) << 4u8) | (b >> 4u8)) << 4u8) | (((b & 15u8) << 2u8) >> 2u8)) as u8
        == b) by (bit_vector);
    assert((((a >> 2u8) << 2u8) | (((a & 3u8) << 4u8) >> 4u8)) as u8 == a) by (bit_vector);
}

/// Decoding the encoding of any byte sequence, the empty one included, gives
/// that sequence back.
pub proof fn lemma_round_trip(b: Seq<u8>)
    ensures
        decode_spec(encode_spec(b)) == Some(b),
    decreases b.len(),
{
    let e = encode_spec(b);
    if b.len() >= 3 {
        lemma_group_bits(b[0], b[1], b[2]);
        lemma_sextet_char(b[0] >> 2u8);
        lemma_sextet_char(((b[0] & 3u8) << 4u8) | (b[1] >> 4u8));
        lemma_sextet_char(((b[1] & 15u8) << 2u8) | (b[2] >> 6u8));
        lemma_sextet_char(b[2] & 63u8);
        lemma_round_trip(b.skip(3));
        let g = encode_group(b[0], b[1], b[2]);
        assert(e.take(4) =~= g);
        assert(e.skip(4) =~= encode_spec(b.skip(3)));
        assert(decode_group(e) =~= b.take(3));
        assert(b =~= b.take(3) + b.skip(3));
    } else if b.len() == 2 {
        lemma_group_bits(b[0], b[1], 0);
        lemma_sextet_char(b[0] >> 2u8);
        lemma_sextet_char(((b[0] & 3u8) << 4u8) | (b[1] >> 4u8));
        lemma_sextet_char((b[1] & 15u8) << 2u8);
        assert(decode_spec(e).unwrap() =~= b);
    } else if b.len() == 1 {
        lemma_group_bits(b[0], 0, 0);
        lemma_sextet_char(b[0] >> 2u8);
        lemma_sextet_char((b[0] & 3u8) << 4u8);
        assert(decode_spec(e).unwrap() =~= b);
    } else {
        assert(b =~= seq![]);
    }
}

proof fn lemma_char_sextet(c: char)
    requires
        is_alphabet_char(c),
    ensures
        char_sextet(c) < 64,
        sextet_char(char_sextet(c)) == c,
{
}

proof fn lemma_split_bits(v0: u8, v1: u8, v2: u8, v3: u8)
    requires
        v0 < 64,
        v1 < 64,
        v2 < 64,
        v3 < 64,
    ensures
        join_sextets_0(v0, v1) >> 2u8 == v0,
        ((join_sextets_0(v0, v1) & 3u8) << 4u8) | (join_sextets_1(v1, v2) >> 4u8) == v1,
        ((join_sextets_1(v1, v2) & 15u8) << 2u8) | (join_sextets_2(v2, v3) >> 6u8) == v2,
        join_sextets_2(v2, v3) & 63u8 == v3,
        v2 & 3u8 == 0 ==> (join_sextets_1(v1, v2) & 15u8) << 2u8 == v2,
        v1 & 15u8 == 0 ==> (join_sextets_0(v0, v1) & 3u8) << 4u8 == v1,
{
    assert((((v0 << 2u8) | (v1 >> 4u8)) as u8) >> 2u8 == v0) by (bit_vector)
        requires
            v0 < 64,
            v1 < 64,
            v2 < 64,
            v3 < 64,
    ;
    assert(((((v0 << 2u8) | (v1 >> 4u8)) as u8 & 3u8) << 4u8) | ((((v1 << 4u8) | (v2 >> 2u8))
        as u8) >> 4u8) == v1) by (bit_vector)
        requires
            v0 < 64,
            v1 < 64,
            v2 < 64,
            v3 < 64,
    ;
    assert(((((v1 << 4u8) | (v2 >> 2u8)) as u8 & 15u8) << 2u8) | ((((v2 << 6u8) | v3) as u8)
        >> 6u8) == v2) by (bit_vector)
        requires
            v0 < 64,
            v1 < 64,
            v2 < 64,
            v3 < 64,
    ;
    assert((((v2 << 6u8) | v3) as u8) & 63u8 == v3) by (bit_vector)
        requires
            v0 < 64,
            v1 < 64,
            v2 < 64,
            v3 < 64,
    ;
    assert(v2 & 3u8 == 0 ==> ((((v1 << 4u8) | (v2 >> 2u8)) as u8 & 15u8) << 2u8) == v2)
        by (bit_vector)
        requires
            v0 < 64,
            v1 < 64,
            v2 < 64,
            v3 < 64,
    ;
    assert(v1 & 15u8 == 0 ==> ((((v0 << 2u8) | (v1 >> 4u8)) as u8 & 3u8) << 4u8) == v1)
        by (bit_vector)
        requires
            v0 < 64,
            v1 < 64,
            v2 < 64,
            v3 < 64,
    ;
}

/// Only encodings decode: whatever text decodes to some bytes is exactly the
/// encoding of those bytes. With the round trip, encoding and decoding are
/// inverse to each other.
pub proof fn lemma_decode_only_encodings(s: Seq<char>)
    requires
        decode_spec(s) is Some,
    ensures
        encode_spec(decode_spec(s).unwrap()) == s,
    decreases s.len(),
{
    let b = decode_spec(s).unwrap();
    if s.len() >= 4 {
        assert forall|k: int| 0 <= k < 4 implies is_alphabet_char(#[trigger] s[k]) by {
            assert(s.take(4)[k] == s[k]);
        }
        lemma_char_sextet(s[0]);
        lemma_char_sextet(s[1]);
        lemma_char_sextet(s[2]);
        lemma_char_sextet(s[3]);
        lemma_split_bits(char_sextet(s[0]), char_sextet(s[1]), char_sextet(s[2]), char_sextet(s[3]));
        lemma_decode_only_encodings(s.skip(4));
        let g = decode_group(s);
        let rest = decode_spec(s.skip(4)).unwrap();
        assert(b == g + rest);
        assert(b.skip(3) =~= rest);
        assert(encode_group(b[0], b[1], b[2]) =~= s.take(4));
        assert(s =~= s.take(4) + s.skip(4));
    } else if s.len() == 3 {
        lemma_char_sextet(s[0]);
        lemma_char_sextet(s[1]);
        lemma_char_sextet(s[2]);
        lemma_split_bits(char_sextet(s[0]), char_sextet(s[1]), char_sextet(s[2]), 0);
        assert(encode_spec(b) =~= s);
    } else if s.len() == 2 {
        lemma_char_sextet(s[0]);
        lemma_char_sextet(s[1]);
        lemma_split_bits(char_sextet(s[0]), char_sextet(s[1]), 0, 0);
        assert(encode_spec(b) =~= s);
    } else {
        assert(s =~= seq![]);
    }
}

/// Text that holds a character outside the alphabet decodes to nothing.
pub proof fn lemma_rejects_foreign_char(s: Seq<char>, i: int)
    requires
        0 <= i < s.len(),
        !is_alphabet_char(s[i]),
    ensures
        decode_spec(s) is None,
    decreases s.len(),
{
    if s.len() >= 4 {
        if i < 4 {
            assert(s.take(4)[i] == s[i]);
        } else {
            assert(s.skip(4)[i - 4] == s[i]);
            lemma_rejects_foreign_char(s.skip(4), i - 4);
        }
    }
}

fn sextet_to_char(v: u8) -> (c: char)
    requires
        v < 64,
    ensures
        c == sextet_char(v),
{
    if v < 26 {
        (v + 65) as char
    } else if v < 52 {
        (v + 71) as char
    } else if v < 62 {
        (v - 4) as char
    } else if v == 62 {
        '-'
    } else {
        '_'
    }
}

fn char_to_sextet(c: char) -> (r: Option<u8>)
    ensures
        r == (if is_alphabet_char(c) {
            Some(char_sextet(c))
        } else {
            None::<u8>
        }),
{
    if 'A' <= c && c <= 'Z' {
        Some((c as u32 - 65) as u8)
    } else if 'a' <= c && c <= 'z' {
        Some((c as u32 - 71) as u8)
    } else if '0' <= c && c <= '9' {
        Some((c as u32 + 4) as u8)
    } else if c == '-' {
        Some(62)
    } else if c == '_' {
        Some(63)
    } else {
        None
    }
}

/// Encodes arbitrary bytes as URL-safe base64 text without padding.
pub fn encode(bytes: &[u8]) -> (s: String)
    ensures
        s@ == encode_spec(bytes@),
{
    let mut out = String::new();
    let n = bytes.len();
    let mut i: usize = 0;
    assert(bytes@.skip(0) =~= bytes@);
    assert(out@ + encode_spec(bytes@) =~= encode_spec(bytes@));
    while n - i >= 3
        invariant
            i <= n,
            n == bytes@.len(),
            encode_spec(bytes@) == out@ + encode_spec(bytes@.skip(i as int)),
        decreases n - i,
    {
        let a = bytes[i];
        let b = bytes[i + 1];
        let c = bytes[i + 2];
        proof {
            lemma_group_bits(a, b, c);
            assert(bytes@.skip(i as int).skip(3) =~= bytes@.skip(i + 3));
        }
        let ghost before = out@;
        push_char(&mut out, sextet_to_char(a >> 2));
        push_char(&mut out, sextet_to_char(((a & 3) << 4) | (b >> 4)));
        push_char(&mut out, sextet_to_char(((b & 15) << 2) | (c >> 6)));
        push_char(&mut out, sextet_to_char(c & 63));
        assert(out@ =~= before + encode_group(a, b, c));
        i = i + 3;
    }
    let ghost before = out@;
    if n - i == 2 {
        let a = bytes[i];
        let b = bytes[i + 1];
        proof {
            lemma_group_bits(a, b, 0);
        }
        push_char(&mut out, sextet_to_char(a >> 2));
        push_char(&mut out, sextet_to_char(((a & 3) << 4) | (b >> 4)));
        push_char(&mut out, sextet_to_char((b & 15) << 2));
    } else if n - i == 1 {
        let a = bytes[i];
        proof {
            lemma_group_bits(a, 0, 0);
        }
        push_char(&mut out, sextet_to_char(a >> 2));
        push_char(&mut out, sextet_to_char((a & 3) << 4));
    }
    assert(out@ =~= before + encode_spec(bytes@.skip(i as int)));
    out
}

/// Decodes URL-safe base64 text without padding; fails on exactly the texts
/// that are no encoding of any bytes.
pub fn decode(s: &str) -> (r: Result<Vec<u8>, EncodingError>)
    ensures
        match r {
            Ok(v) => decode_spec(s@) == Some(v@),
            Err(_) => decode_spec(s@) is None,
        },
{
    let cs = chars_of(s);
    let n = cs.len();
    let mut out: Vec<u8> = Vec::new();
    let mut i: usize = 0;
    proof {
        assert(cs@.skip(0) =~= cs@);
        if let Some(t) = decode_spec(s@) {
            assert(out@ + t =~= t);
        }
    }
    while n - i >= 4
        invariant
            i <= n,
            n == cs@.len(),
            cs@ == s@,
            decode_spec(s@) == prepend_bytes(out@, decode_spec(cs@.skip(i as int))),
        decreases n - i,
    {
        let ghost rest = cs@.skip(i as int);
        let v0 = char_to_sextet(cs[i]);
        let v1 = char_to_sextet(cs[i + 1]);
        let v2 = char_to_sextet(cs[i + 2]);
        let v3 = char_to_sextet(cs[i + 3]);
        match (v0, v1, v2, v3) {
            (Some(v0), Some(v1), Some(v2), Some(v3)) => {
                proof {
                    assert forall|k: int| 0 <= k < 4 implies is_alphabet_char(
                        #[trigger] rest.take(4)[k],
                    ) by {
                        assert(rest.take(4)[k] == cs@[i + k]);
                    }
                    assert(rest.skip(4) =~= cs@.skip(i + 4));
                }
                let ghost before = out@;
                out.push(((v0 << 2) | (v1 >> 4)) as u8);
                out.push(((v1 << 4) | (v2 >> 2)) as u8);
                out.push(((v2 << 6) | v3) as u8);
                assert(out@ =~= before + decode_group(rest));
                proof {
                    match decode_spec(rest.skip(4)) {
                        Some(t) => {
                            assert(before + (decode_group(rest) + t) =~= out@ + t);
                        },
                        None => {},
                    }
                }
            },
            _ => {
                proof {
                    let k: int = if v0 is None {
                        0
                    } else if v1 is None {
                        1
                    } else if v2 is None {
                        2
                    } else {
                        3
                    };
                    lemma_rejects_foreign_char(rest, k);
                }
                return Err(EncodingError);
            },
        }
        i = i + 4;
    }
    let ghost rest = cs@.skip(i as int);
    if n - i == 1 {
        return Err(EncodingError);
    }
    if n - i == 0 {
        assert(out@ + seq![] =~= out@);
        return Ok(out);
    }
    let v0 = char_to_sextet(cs[i]);
    let v1 = char_to_sextet(cs[i + 1]);
    if v0.is_none() || v1.is_none() {
        proof {
            lemma_rejects_foreign_char(rest, if v0 is None { 0 } else { 1 });
        }
        return Err(EncodingError);
    }
    let v0 = v0.unwrap();
    let v1 = v1.unwrap();
    if n - i == 2 {
        if v1 & 15 != 0 {
            return Err(EncodingError);
        }
        let ghost before = out@;
        out.push(((v0 << 2) | (v1 >> 4)) as u8);
        proof {
            assert forall|k: int| 0 <= k < 2 implies is_alphabet_char(#[trigger] rest[k]) by {
                assert(rest[k] == cs@[i + k]);
            }
            assert(out@ =~= before + decode_spec(rest).unwrap());
        }
        return Ok(out);
    }
    let v2 = char_to_sextet(cs[i + 2]);
    if v2.is_none() {
        proof {
            lemma_rejects_foreign_char(rest, 2);
        }
        return Err(EncodingError);
    }
    let v2 = v2.unwrap();
    if v2 & 3 != 0 {
        return Err(EncodingError);
    }
    let ghost before = out@;
    out.push(((v0 << 2) | (v1 >> 4)) as u8);
    out.push(((v1 << 4) | (v2 >> 2)) as u8);
    proof {
        assert forall|k: int| 0 <= k < 3 implies is_alphabet_char(#[trigger] rest[k]) by {
            assert(rest[k] == cs@[i + k]);
        }
        assert(out@ =~= before + decode_spec(rest).unwrap());
    }
    Ok(out)
}

} // verus!
