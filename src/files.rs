//! Which auxiliary files a directory-level pass processes, and in what order:
//! those with the expected extension, sorted by name.

use vstd::prelude::*;
use vstd::seq_lib::{to_multiset_build, to_multiset_insert};
use vstd::utf8::encode_utf8;

verus! {

/// `name` has the extension `ext`: the text after its last dot, where that
/// dot is not the name's first character.
pub open spec fn has_extension(name: Seq<char>, ext: Seq<char>) -> bool {
    exists|p: int|
        0 < p < name.len() && name[p] == '.' && (forall|q: int| p < q < name.len() ==> name[q] != '.')
            && name.subrange(p + 1, name.len() as int) == ext
}

/// Byte-wise lexicographic order.
pub open spec fn bytes_le(a: Seq<u8>, b: Seq<u8>) -> bool
    decreases a.len(),
{
    if a.len() == 0 {
        true
    } else if b.len() == 0 {
        false
    } else if a[0] != b[0] {
        a[0] < b[0]
    } else {
        bytes_le(a.drop_first(), b.drop_first())
    }
}

/// File names ordered as their UTF-8 bytes compare.
pub open spec fn name_le(a: Seq<char>, b: Seq<char>) -> bool {
    bytes_le(encode_utf8(a), encode_utf8(b))
}

/// The names of `names` that have the extension `ext`, in their order.
pub open spec fn with_extension(names: Seq<Seq<char>>, ext: Seq<char>) -> Seq<Seq<char>> {
    names.filter(|n: Seq<char>| has_extension(n, ext))
}

proof fn lemma_bytes_total(a: Seq<u8>, b: Seq<u8>)
    ensures
        bytes_le(a, b) || bytes_le(b, a),
    decreases a.len(),
{
    if a.len() > 0 && b.len() > 0 && a[0] == b[0] {
        lemma_bytes_total(a.drop_first(), b.drop_first());
    }
}

/// Whether `a` comes no later than `b`.
fn name_before(a: &str, b: &str) -> (r: bool)
    ensures
        r == name_le(a@, b@),
{
    let x = a.as_bytes();
    let y = b.as_bytes();
    let mut i: usize = 0;
    assert(x@.subrange(0, x@.len() as int) =~= x@);
    assert(y@.subrange(0, y@.len() as int) =~= y@);
    while i < x.len() && i < y.len() && x[i] == y[i]
        invariant
            x@ == encode_utf8(a@),
            y@ == encode_utf8(b@),
            i <= x@.len(),
            i <= y@.len(),
            bytes_le(x@, y@) == bytes_le(
                x@.subrange(i as int, x@.len() as int),
                y@.subrange(i as int, y@.len() as int),
            ),
        decreases x@.len() - i,
    {
        assert(x@.subrange(i as int, x@.len() as int).drop_first() =~= x@.subrange(
            i + 1,
            x@.len() as int,
        ));
        assert(y@.subrange(i as int, y@.len() as int).drop_first() =~= y@.subrange(
            i + 1,
            y@.len() as int,
        ));
        i = i + 1;
    }
    if i == x.len() {
        true
    } else if i == y.len() {
        false
    } else {
        x[i] < y[i]
    }
}

/// Whether `name` has the extension `ext`.
pub fn extension_is(name: &str, ext: &str) -> (r: bool)
    ensures
        r == has_extension(name@, ext@),
{
    let n = name.unicode_len();
    let mut p: usize = n;
    while p > 0 && name.get_char(p - 1) != '.'
        invariant
            n == name@.len(),
            p <= n,
            forall|q: int| p <= q < n ==> name@[q] != '.',
        decreases p,
    {
        p = p - 1;
    }
    if p <= 1 {
        assert forall|d: int| 0 < d < name@.len() && name@[d] == '.' implies exists|q: int|
            d < q < name@.len() && name@[q] == '.' by {
            if p == 1 {
                assert(name@[0] == '.');
            }
        }
        return false;
    }
    let dot = p - 1;
    let tail = name.substring_char(p, n);
    let r = crate::text::same_text(tail, ext);
    proof {
        if r {
            assert(0 < dot < n && name@[dot as int] == '.');
            assert(has_extension(name@, ext@));
        } else {
            assert forall|d: int|
                0 < d < name@.len() && name@[d] == '.' && (forall|q: int| d < q < name@.len() ==> name@[q] != '.')
                    implies name@.subrange(d + 1, name@.len() as int) != ext@ by {
                assert(d == dot);
            }
        }
    }
    r
}

/// The names that have the extension `ext`, sorted by their bytes.
pub fn select_files(names: &Vec<String>, ext: &str) -> (r: Vec<String>)
    ensures
        r.deep_view().to_multiset() == with_extension(names.deep_view(), ext@).to_multiset(),
        forall|i: int| 0 <= i < r@.len() - 1 ==> name_le(#[trigger] r@[i]@, r@[i + 1]@),
{
    let ghost all = names.deep_view();
    let mut out: Vec<String> = Vec::new();
    let mut i: usize = 0;
    assert(out.deep_view() =~= Seq::<Seq<char>>::empty());
    assert(all.subrange(0, 0) =~= Seq::<Seq<char>>::empty());
    proof {
        reveal(Seq::filter);
        assert(with_extension(all.subrange(0, 0), ext@) =~= Seq::<Seq<char>>::empty());
    }
    while i < names.len()
        invariant
            all == names.deep_view(),
            i <= names@.len(),
            out.deep_view().to_multiset() == with_extension(all.subrange(0, i as int), ext@).to_multiset(),
            forall|k: int| 0 <= k < out@.len() - 1 ==> name_le(#[trigger] out@[k]@, out@[k + 1]@),
        decreases names@.len() - i,
    {
        let name = &names[i];
        proof {
            assert(all[i as int] == name@);
            assert(all.subrange(0, i + 1) =~= all.subrange(0, i as int).push(name@));
            all.subrange(0, i as int).lemma_filter_push(name@, |n: Seq<char>| has_extension(n, ext@));
        }
        if extension_is(name.as_str(), ext) {
            let mut p: usize = 0;
            while p < out.len() && name_before(out[p].as_str(), name.as_str())
                invariant
                    p <= out@.len(),
                    forall|k: int| 0 <= k < p ==> name_le(#[trigger] out@[k]@, name@),
                decreases out@.len() - p,
            {
                p = p + 1;
            }
            let ghost before = out.deep_view();
            let ghost old_out = out@;
            proof {
                if p < out@.len() {
                    lemma_bytes_total(encode_utf8(out@[p as int]@), encode_utf8(name@));
                }
            }
            out.insert(p, name.clone());
            proof {
                assert(out.deep_view() =~= before.insert(p as int, name@));
                to_multiset_insert(before, p as int, name@);
                to_multiset_build(with_extension(all.subrange(0, i as int), ext@), name@);
                assert forall|k: int| 0 <= k < out@.len() - 1 implies name_le(
                    #[trigger] out@[k]@,
                    out@[k + 1]@,
                ) by {
                    if k < p - 1 {
                        assert(out@[k] == old_out[k] && out@[k + 1] == old_out[k + 1]);
                    } else if k == p - 1 {
                        assert(out@[k] == old_out[k]);
                    } else if k == p {
                    } else {
                        assert(out@[k] == old_out[k - 1] && out@[k + 1] == old_out[k]);
                    }
                }
            }
        }
        i = i + 1;
    }
    assert(all.subrange(0, names@.len() as int) =~= all);
    out
}

} // verus!
