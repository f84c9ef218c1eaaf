//! Content identity: a fixed-length fingerprint of an entity's defining fields.
//!
//! Each field is written as the lowercase hex of its UTF-8 bytes followed by
//! a `|` separator; hex never holds `|`, so the separator is unambiguous and
//! different field lists give different bytes. The whole is digested with
//! SHA-256, and the digest is written as lowercase hex.

use vstd::prelude::*;
use vstd::utf8::{encode_utf8, encode_utf8_decode_utf8};

verus! {

/// SHA-256 of `data`.
pub uninterp spec fn sha256_of(data: Seq<u8>) -> Seq<u8>;

/// The lowercase hexadecimal digit of `n` (below 16).
pub open spec fn hex_digit(n: int) -> char {
    seq!['0', '1', '2', '3', '4', '5', '6', '7', '8', '9', 'a', 'b', 'c', 'd', 'e', 'f'][n]
}

/// Two lowercase hexadecimal digits for each byte, high nibble first.
pub open spec fn hex_of(b: Seq<u8>) -> Seq<char>
    decreases b.len(),
{
    if b.len() == 0 {
        Seq::empty()
    } else {
        hex_of(b.drop_last()) + seq![hex_digit(b.last() as int / 16), hex_digit(b.last() as int % 16)]
    }
}

/// The text that stands for one field: the hex of its UTF-8 bytes.
pub open spec fn field_code(p: Seq<char>) -> Seq<char> {
    hex_of(encode_utf8(p))
}

/// The bytes that are digested for `parts`: each part's code followed by `|`.
pub open spec fn framed(parts: Seq<Seq<char>>) -> Seq<u8>
    decreases parts.len(),
{
    if parts.len() == 0 {
        Seq::empty()
    } else {
        framed(parts.drop_last()) + encode_utf8(field_code(parts.last())) + seq![124u8]
    }
}

/// The identity of an entity whose defining fields are `parts`, in order.
pub open spec fn identity_of(parts: Seq<Seq<char>>) -> Seq<char> {
    hex_of(sha256_of(framed(parts)))
}

/// The views of the fields in `parts`.
pub open spec fn field_views(parts: Seq<&str>) -> Seq<Seq<char>> {
    Seq::new(parts.len(), |i: int| parts[i]@)
}

/// Relies on `sha2::Sha256` (through `Digest::digest`): the SHA-256 digest of
/// `data`, which is 32 bytes long.
#[verifier::external_body]
fn sha256(data: &[u8]) -> (r: Vec<u8>)
    ensures
        r@ == sha256_of(data@),
        r@.len() == 32,
{
    <sha2::Sha256 as sha2::Digest>::digest(data).to_vec()
}

/// Relies on `hex::encode`: two lowercase hexadecimal digits per byte, in
/// order.
#[verifier::external_body]
fn to_hex(b: &[u8]) -> (r: String)
    ensures
        r@ == hex_of(b@),
{
    hex::encode(b)
}

/// Appends `src` to `dst`.
fn push_all(dst: &mut Vec<u8>, src: &[u8])
    ensures
        final(dst)@ == old(dst)@ + src@,
{
    let mut i: usize = 0;
    while i < src.len()
        invariant
            i <= src@.len(),
            dst@ == old(dst)@ + src@.subrange(0, i as int),
        decreases src@.len() - i,
    {
        dst.push(src[i]);
        i = i + 1;
        assert(dst@ =~= old(dst)@ + src@.subrange(0, i as int));
    }
    assert(src@.subrange(0, src@.len() as int) =~= src@);
}

/// The identity of an entity whose defining fields are `parts`, in order
/// (an absent field is passed as the empty string).
pub fn compute_hash(parts: &[&str]) -> (r: String)
    ensures
        r@ == identity_of(field_views(parts@)),
        r@.len() == 64,
{
    let mut data: Vec<u8> = Vec::new();
    let mut i: usize = 0;
    while i < parts.len()
        invariant
            i <= parts@.len(),
            data@ == framed(field_views(parts@).subrange(0, i as int)),
        decreases parts@.len() - i,
    {
        let p: &str = parts[i];
        let code = to_hex(p.as_bytes());
        push_all(&mut data, code.as_str().as_bytes());
        data.push(124u8);
        proof {
            let v = field_views(parts@).subrange(0, i + 1);
            assert(v.drop_last() =~= field_views(parts@).subrange(0, i as int));
            assert(v.last() == p@);
        }
        i = i + 1;
    }
    assert(field_views(parts@).subrange(0, parts@.len() as int) =~= field_views(parts@));
    let digest = sha256(data.as_slice());
    let r = to_hex(digest.as_slice());
    proof {
        lemma_hex_len(digest@);
    }
    r
}

proof fn lemma_hex_len(b: Seq<u8>)
    ensures
        hex_of(b).len() == 2 * b.len(),
    decreases b.len(),
{
    if b.len() > 0 {
        lemma_hex_len(b.drop_last());
    }
}

/// Identical field tuples always give the same identity: the fingerprint
/// depends on the fields alone, not on the import run or anything else.
pub proof fn lemma_identity_depends_on_fields(a: Seq<Seq<char>>, b: Seq<Seq<char>>)
    requires
        a =~= b,
    ensures
        identity_of(a) == identity_of(b),
{
}

/// The fields of `parts` each followed by `|`, as characters.
pub open spec fn framed_chars(parts: Seq<Seq<char>>) -> Seq<char>
    decreases parts.len(),
{
    if parts.len() == 0 {
        Seq::empty()
    } else {
        framed_chars(parts.drop_last()) + parts.last() + seq!['|']
    }
}

proof fn lemma_encode_concat(a: Seq<char>, b: Seq<char>)
    ensures
        encode_utf8(a + b) == encode_utf8(a) + encode_utf8(b),
    decreases a.len(),
{
    if a.len() == 0 {
        assert(a + b =~= b);
    } else {
        assert((a + b).drop_first() =~= a.drop_first() + b);
        lemma_encode_concat(a.drop_first(), b);
        assert(encode_utf8(a + b) =~= encode_utf8(a) + encode_utf8(b));
    }
}

proof fn lemma_encode_bar()
    ensures
        encode_utf8(seq!['|']) == seq![124u8],
{
    let s = seq!['|'];
    assert(s.drop_first() =~= Seq::<char>::empty());
    assert(('|' as u32) == 124u32);
    assert((124u32 & 0x7Fu32) as u8 == 124u8) by (bit_vector);
    assert(s[0] == '|');
    assert(vstd::utf8::encode_scalar(124u32) =~= seq![124u8]);
    assert(encode_utf8(s.drop_first()) =~= Seq::<u8>::empty());
    assert(encode_utf8(s) == vstd::utf8::encode_scalar(s[0] as u32) + encode_utf8(s.drop_first()));
    assert(encode_utf8(s) =~= seq![124u8]);
}

/// The codes of the fields of `parts`.
pub open spec fn field_codes(parts: Seq<Seq<char>>) -> Seq<Seq<char>> {
    Seq::new(parts.len(), |i: int| field_code(parts[i]))
}

proof fn lemma_framed_is_encoding(parts: Seq<Seq<char>>)
    ensures
        framed(parts) == encode_utf8(framed_chars(field_codes(parts))),
    decreases parts.len(),
{
    if parts.len() > 0 {
        lemma_framed_is_encoding(parts.drop_last());
        assert(field_codes(parts).drop_last() =~= field_codes(parts.drop_last()));
        assert(field_codes(parts).last() == field_code(parts.last()));
        lemma_encode_bar();
        lemma_encode_concat(framed_chars(field_codes(parts.drop_last())), field_code(parts.last()));
        lemma_encode_concat(
            framed_chars(field_codes(parts.drop_last())) + field_code(parts.last()),
            seq!['|'],
        );
    }
}

proof fn lemma_hex_digit_injective(i: int, j: int)
    requires
        0 <= i < 16,
        0 <= j < 16,
        hex_digit(i) == hex_digit(j),
    ensures
        i == j,
{
}

proof fn lemma_hex_has_no_bar(b: Seq<u8>)
    ensures
        forall|j: int| 0 <= j < hex_of(b).len() ==> hex_of(b)[j] != '|',
    decreases b.len(),
{
    if b.len() > 0 {
        lemma_hex_has_no_bar(b.drop_last());
        let x = b.last() as int;
        assert(hex_digit(x / 16) != '|' && hex_digit(x % 16) != '|');
        let h = hex_of(b);
        let init = hex_of(b.drop_last());
        assert forall|j: int| 0 <= j < h.len() implies h[j] != '|' by {
            if j < init.len() {
                assert(h[j] == init[j]);
            }
        }
    }
}

proof fn lemma_hex_injective(a: Seq<u8>, b: Seq<u8>)
    requires
        hex_of(a) == hex_of(b),
    ensures
        a == b,
    decreases a.len(),
{
    lemma_hex_len(a);
    lemma_hex_len(b);
    if a.len() > 0 {
        let x = a.last() as int;
        let y = b.last() as int;
        let n = hex_of(a).len();
        assert(hex_of(a)[n - 2] == hex_digit(x / 16) && hex_of(a)[n - 1] == hex_digit(x % 16));
        assert(hex_of(b)[n - 2] == hex_digit(y / 16) && hex_of(b)[n - 1] == hex_digit(y % 16));
        lemma_hex_digit_injective(x / 16, y / 16);
        lemma_hex_digit_injective(x % 16, y % 16);
        assert(x == y);
        lemma_hex_len(a.drop_last());
        lemma_hex_len(b.drop_last());
        assert(hex_of(a.drop_last()) =~= hex_of(a).subrange(0, n - 2));
        assert(hex_of(b.drop_last()) =~= hex_of(b).subrange(0, n - 2));
        lemma_hex_injective(a.drop_last(), b.drop_last());
        assert(a =~= a.drop_last().push(a.last()));
        assert(b =~= b.drop_last().push(b.last()));
    }
}

spec fn free_of_separator(parts: Seq<Seq<char>>) -> bool {
    forall|i: int, j: int| 0 <= i < parts.len() && 0 <= j < parts[i].len() ==> parts[i][j] != '|'
}

proof fn lemma_framed_chars_injective(a: Seq<Seq<char>>, b: Seq<Seq<char>>)
    requires
        free_of_separator(a),
        free_of_separator(b),
        framed_chars(a) == framed_chars(b),
    ensures
        a == b,
    decreases a.len() + b.len(),
{
    if a.len() == 0 || b.len() == 0 {
        if a.len() > 0 {
            assert(framed_chars(a).len() > 0);
        }
        if b.len() > 0 {
            assert(framed_chars(b).len() > 0);
        }
        assert(a =~= b);
    } else {
        let fa = framed_chars(a.drop_last());
        let fb = framed_chars(b.drop_last());
        let p = a.last();
        let q = b.last();
        let x = fa + p;
        let y = fb + q;
        assert(x =~= framed_chars(a).drop_last());
        assert(y =~= framed_chars(b).drop_last());
        assert(x == y);
        assert(forall|j: int| 0 <= j < p.len() ==> p[j] != '|') by {
            assert forall|j: int| 0 <= j < p.len() implies p[j] != '|' by {
                assert(a[a.len() - 1] == p);
            }
        }
        assert(forall|j: int| 0 <= j < q.len() ==> q[j] != '|') by {
            assert forall|j: int| 0 <= j < q.len() implies q[j] != '|' by {
                assert(b[b.len() - 1] == q);
            }
        }
        if p.len() < q.len() {
            lemma_framed_ends_with_bar(a.drop_last());
            let k = x.len() - p.len() - 1;
            if fa.len() == 0 {
                assert(x.len() == p.len());
                assert(false);
            }
            assert(x[k] == '|');
            assert(y[k] == q[k - fb.len()]);
            assert(false);
        } else if q.len() < p.len() {
            lemma_framed_ends_with_bar(b.drop_last());
            let k = y.len() - q.len() - 1;
            if fb.len() == 0 {
                assert(y.len() == q.len());
                assert(false);
            }
            assert(y[k] == '|');
            assert(x[k] == p[k - fa.len()]);
            assert(false);
        }
        assert(p =~= x.subrange(fa.len() as int, x.len() as int));
        assert(q =~= y.subrange(fb.len() as int, y.len() as int));
        assert(fa =~= x.subrange(0, fa.len() as int));
        assert(fb =~= y.subrange(0, fb.len() as int));
        assert(free_of_separator(a.drop_last()));
        assert(free_of_separator(b.drop_last()));
        lemma_framed_chars_injective(a.drop_last(), b.drop_last());
        assert(a =~= a.drop_last().push(p));
        assert(b =~= b.drop_last().push(q));
    }
}

proof fn lemma_framed_ends_with_bar(parts: Seq<Seq<char>>)
    ensures
        framed_chars(parts).len() > 0 ==> framed_chars(parts).last() == '|',
{
}

/// Field lists that differ in any field, or in their number of fields, give
/// different bytes to the digest; that two different inputs also give
/// different digests is what SHA-256's collision resistance provides.
pub proof fn lemma_distinct_fields_frame_differently(a: Seq<Seq<char>>, b: Seq<Seq<char>>)
    requires
        a != b,
    ensures
        framed(a) != framed(b),
{
    if framed(a) == framed(b) {
        lemma_framed_is_encoding(a);
        lemma_framed_is_encoding(b);
        encode_utf8_decode_utf8(framed_chars(field_codes(a)));
        encode_utf8_decode_utf8(framed_chars(field_codes(b)));
        assert forall|i: int, j: int| 0 <= i < field_codes(a).len() && 0 <= j < field_codes(a)[i].len()
            implies field_codes(a)[i][j] != '|' by {
            lemma_hex_has_no_bar(encode_utf8(a[i]));
        }
        assert forall|i: int, j: int| 0 <= i < field_codes(b).len() && 0 <= j < field_codes(b)[i].len()
            implies field_codes(b)[i][j] != '|' by {
            lemma_hex_has_no_bar(encode_utf8(b[i]));
        }
        lemma_framed_chars_injective(field_codes(a), field_codes(b));
        assert forall|i: int| 0 <= i < a.len() implies a[i] == b[i] by {
            assert(field_codes(a)[i] == field_codes(b)[i]);
            lemma_hex_injective(encode_utf8(a[i]), encode_utf8(b[i]));
            encode_utf8_decode_utf8(a[i]);
            encode_utf8_decode_utf8(b[i]);
        }
        assert(a =~= b);
    }
}

} // verus!
