//! The two percent-encoding alphabets of the request signer.
//!
//! Both use the URI-encode unreserved set `A-Z a-z 0-9 - _ . ~` and
//! uppercase hex digits.  The query encoding encodes every other byte,
//! `/` included; the path encoding keeps literal `/` separators, which
//! encodes a key segment-wise and preserves empty segments verbatim.
//! They are deliberately two distinct functions, not one function with a
//! "keep slash" flag.

use vstd::prelude::*;

verus! {

/// The URI-encode unreserved alphabet: `A-Z a-z 0-9 - _ . ~`.
pub open spec fn spec_is_unreserved(b: u8) -> bool {
    (0x41 <= b <= 0x5a) || (0x61 <= b <= 0x7a) || (0x30 <= b <= 0x39) || b == 0x2d || b == 0x5f
        || b == 0x2e || b == 0x7e
}

/// Uppercase hex digit for a value below 16.
pub open spec fn spec_hex_upper_digit(n: int) -> u8 {
    if n < 10 {
        (0x30 + n) as u8
    } else {
        (0x41 + (n - 10)) as u8
    }
}

/// `%XX` escape of one byte.
pub open spec fn spec_pct(b: u8) -> Seq<u8> {
    seq![0x25u8, spec_hex_upper_digit(b as int / 16), spec_hex_upper_digit(b as int % 16)]
}

/// Query encoding of one byte: unreserved bytes stand, all others are
/// escaped.
pub open spec fn spec_enc_byte(b: u8) -> Seq<u8> {
    if spec_is_unreserved(b) {
        seq![b]
    } else {
        spec_pct(b)
    }
}

/// Query-value encoding: applied to the whole value, `/` escaped too.
pub open spec fn spec_enc_query(s: Seq<u8>) -> Seq<u8>
    decreases s.len(),
{
    if s.len() == 0 {
        seq![]
    } else {
        spec_enc_byte(s[0]) + spec_enc_query(s.drop_first())
    }
}

/// Path encoding of one byte: as the query encoding, except that a
/// literal `/` stands.
pub open spec fn spec_enc_path_byte(b: u8) -> Seq<u8> {
    if b == 0x2f {
        seq![b]
    } else {
        spec_enc_byte(b)
    }
}

/// Path encoding of an object key: segment-wise URI-encoding with the
/// `/` separators kept.
pub open spec fn spec_enc_path(s: Seq<u8>) -> Seq<u8>
    decreases s.len(),
{
    if s.len() == 0 {
        seq![]
    } else {
        spec_enc_path_byte(s[0]) + spec_enc_path(s.drop_first())
    }
}

fn push_enc_byte(out: &mut Vec<u8>, b: u8)
    ensures
        final(out)@ == old(out)@ + spec_enc_byte(b),
{
    if (0x41 <= b && b <= 0x5a) || (0x61 <= b && b <= 0x7a) || (0x30 <= b && b <= 0x39)
        || b == 0x2d || b == 0x5f || b == 0x2e || b == 0x7e {
        out.push(b);
    } else {
        out.push(0x25);
        let hi = b / 16;
        let lo = b % 16;
        out.push(if hi < 10 { 0x30 + hi } else { 0x41 + (hi - 10) });
        out.push(if lo < 10 { 0x30 + lo } else { 0x41 + (lo - 10) });
    }
}

/// Encodes a whole query key or value; every byte outside the
/// unreserved set, `/` included, becomes `%XX`.
pub fn uri_encode_query(s: &[u8]) -> (r: Vec<u8>)
    ensures
        r@ == spec_enc_query(s@),
{
    let mut out: Vec<u8> = Vec::new();
    proof {
        assert(s@.skip(0) =~= s@);
    }
    for i in 0..s.len()
        invariant
            spec_enc_query(s@) == out@ + spec_enc_query(s@.skip(i as int)),
    {
        proof {
            assert(s@.skip(i as int)[0] == s@[i as int]);
            assert(s@.skip(i as int).drop_first() =~= s@.skip(i + 1));
        }
        push_enc_byte(&mut out, s[i]);
    }
    proof {
        assert(s@.skip(s@.len() as int).len() == 0);
        assert(spec_enc_query(s@) =~= out@);
    }
    out
}

/// Encodes an object key for the request path; literal `/` separators
/// are kept, every other byte outside the unreserved set becomes `%XX`.
pub fn uri_encode_path(s: &[u8]) -> (r: Vec<u8>)
    ensures
        r@ == spec_enc_path(s@),
{
    let mut out: Vec<u8> = Vec::new();
    proof {
        assert(s@.skip(0) =~= s@);
    }
    for i in 0..s.len()
        invariant
            spec_enc_path(s@) == out@ + spec_enc_path(s@.skip(i as int)),
    {
        proof {
            assert(s@.skip(i as int)[0] == s@[i as int]);
            assert(s@.skip(i as int).drop_first() =~= s@.skip(i + 1));
        }
        if s[i] == 0x2f {
            out.push(0x2f);
        } else {
            push_enc_byte(&mut out, s[i]);
        }
    }
    proof {
        assert(s@.skip(s@.len() as int).len() == 0);
        assert(spec_enc_path(s@) =~= out@);
    }
    out
}

/// Occurrences of the byte `b` in `s`.
pub open spec fn spec_count_byte(s: Seq<u8>, b: u8) -> nat
    decreases s.len(),
{
    if s.len() == 0 {
        0
    } else {
        (if s[0] == b {
            1nat
        } else {
            0nat
        }) + spec_count_byte(s.drop_first(), b)
    }
}

proof fn lemma_count_byte_add(a: Seq<u8>, c: Seq<u8>, b: u8)
    ensures
        spec_count_byte(a + c, b) == spec_count_byte(a, b) + spec_count_byte(c, b),
    decreases a.len(),
{
    if a.len() == 0 {
        assert(a + c =~= c);
    } else {
        assert((a + c).drop_first() =~= a.drop_first() + c);
        lemma_count_byte_add(a.drop_first(), c, b);
    }
}

proof fn lemma_count_byte_absent(s: Seq<u8>, b: u8)
    requires
        forall|i: int| 0 <= i < s.len() ==> s[i] != b,
    ensures
        spec_count_byte(s, b) == 0,
    decreases s.len(),
{
    if s.len() > 0 {
        assert(forall|i: int| 0 <= i < s.drop_first().len() ==> s.drop_first()[i] != b);
        lemma_count_byte_absent(s.drop_first(), b);
    }
}

proof fn lemma_count_byte_single(x: u8, b: u8)
    ensures
        spec_count_byte(seq![x], b) == (if x == b {
            1nat
        } else {
            0nat
        }),
{
    assert(seq![x].len() == 1);
    assert(seq![x][0] == x);
    let e = seq![x].drop_first();
    assert(e.len() == 0);
    assert(spec_count_byte(e, b) == 0);
}

/// No `%XX` escape holds a literal `/`: `%` is not `/` and no uppercase
/// hex digit is `/`.
proof fn lemma_pct_no_slash(b: u8)
    ensures
        forall|i: int| 0 <= i < spec_pct(b).len() ==> spec_pct(b)[i] != 0x2f,
{
    assert(0 <= b as int / 16 <= 15);
    assert(0 <= b as int % 16 <= 15);
    assert(spec_pct(b)[0] == 0x25);
    assert(spec_pct(b)[1] != 0x2f);
    assert(spec_pct(b)[2] != 0x2f);
    assert forall|i: int| 0 <= i < spec_pct(b).len() implies spec_pct(b)[i] != 0x2f by {
        assert(i == 0 || i == 1 || i == 2);
    }
}

/// The query encoding never emits a literal `/`: the byte is escaped as
/// `%2F`, and neither `%` nor any uppercase hex digit is `/`.
pub proof fn lemma_query_encoding_encodes_slash(s: Seq<u8>)
    ensures
        forall|i: int| 0 <= i < spec_enc_query(s).len() ==> spec_enc_query(s)[i] != 0x2f,
    decreases s.len(),
{
    if s.len() > 0 {
        lemma_query_encoding_encodes_slash(s.drop_first());
        let e = spec_enc_byte(s[0]);
        let rest = spec_enc_query(s.drop_first());
        assert(spec_enc_query(s) == e + rest);
        lemma_pct_no_slash(s[0]);
        assert forall|i: int| 0 <= i < (e + rest).len() implies (e + rest)[i] != 0x2f by {
            if i < e.len() {
                if spec_is_unreserved(s[0]) {
                    assert(e[i] == s[0]);
                } else {
                    assert(e =~= spec_pct(s[0]));
                }
            } else {
                assert((e + rest)[i] == rest[i - e.len()]);
            }
        }
    }
}

/// The path encoding preserves the `/` separators of the key: the
/// output holds exactly as many literal `/` bytes as the key.
pub proof fn lemma_path_encoding_preserves_slash(s: Seq<u8>)
    ensures
        spec_count_byte(spec_enc_path(s), 0x2f) == spec_count_byte(s, 0x2f),
    decreases s.len(),
{
    if s.len() > 0 {
        lemma_path_encoding_preserves_slash(s.drop_first());
        lemma_count_byte_add(spec_enc_path_byte(s[0]), spec_enc_path(s.drop_first()), 0x2f);
        let e = spec_enc_path_byte(s[0]);
        if s[0] == 0x2f || spec_is_unreserved(s[0]) {
            assert(e =~= seq![s[0]]);
            lemma_count_byte_single(s[0], 0x2f);
        } else {
            assert(e =~= spec_pct(s[0]));
            lemma_pct_no_slash(s[0]);
            lemma_count_byte_absent(spec_pct(s[0]), 0x2f);
            assert(s[0] != 0x2f);
        }
    }
}

/// On a key without `/`, the two alphabets agree: a single segment is
/// encoded the same way in a path and in a query value.
pub proof fn lemma_segment_encodings_agree(s: Seq<u8>)
    requires
        forall|i: int| 0 <= i < s.len() ==> s[i] != 0x2f,
    ensures
        spec_enc_path(s) == spec_enc_query(s),
    decreases s.len(),
{
    if s.len() > 0 {
        assert(forall|i: int| 0 <= i < s.drop_first().len() ==> s.drop_first()[i] != 0x2f);
        lemma_segment_encodings_agree(s.drop_first());
    }
}

} // verus!
