//! Order of the parameter axes of a grid: by name, as `String`'s `Ord`
//! compares them (byte by byte over their UTF-8 encoding).
use vstd::prelude::*;
use vstd::utf8::encode_utf8;
use vstd::string::StringSliceAdditionalSpecFns;

verus! {

broadcast use vstd::seq_lib::group_to_multiset_ensures;

/// `a` sorts strictly before `b` in lexicographic byte order.
pub open spec fn bytes_lt(a: Seq<u8>, b: Seq<u8>) -> bool
    decreases a.len(),
{
    if b.len() == 0 {
        false
    } else if a.len() == 0 {
        true
    } else if a[0] != b[0] {
        a[0] < b[0]
    } else {
        bytes_lt(a.drop_first(), b.drop_first())
    }
}

/// Name `a` sorts strictly before name `b`.
pub open spec fn name_lt(a: Seq<char>, b: Seq<char>) -> bool {
    bytes_lt(encode_utf8(a), encode_utf8(b))
}

/// Names in non-decreasing order.
pub open spec fn names_sorted(names: Seq<Seq<char>>) -> bool {
    forall|i: int, j: int| 0 <= i < j < names.len() ==> !name_lt(#[trigger] names[j], #[trigger] names[i])
}

/// The text of each name.
pub open spec fn name_texts(names: Seq<String>) -> Seq<Seq<char>> {
    names.map_values(|s: String| s@)
}

/// The byte order is transitive.
pub proof fn lemma_bytes_lt_transitive(a: Seq<u8>, b: Seq<u8>, c: Seq<u8>)
    requires
        bytes_lt(a, b),
        bytes_lt(b, c),
    ensures
        bytes_lt(a, c),
    decreases a.len(),
{
    if a.len() > 0 && a[0] == b[0] && b[0] == c[0] {
        lemma_bytes_lt_transitive(a.drop_first(), b.drop_first(), c.drop_first());
    }
}

/// The byte order is irreflexive.
pub proof fn lemma_bytes_lt_irreflexive(a: Seq<u8>)
    ensures
        !bytes_lt(a, a),
    decreases a.len(),
{
    if a.len() > 0 {
        lemma_bytes_lt_irreflexive(a.drop_first());
    }
}

/// At the first byte where two names differ, the smaller byte sorts first:
/// names compare by plain byte value (`'1'` before `'a'`, `'Z'` before `'a'`).
pub proof fn lemma_bytes_lt_first_difference(p: u8, q: u8, s: Seq<u8>, t: Seq<u8>)
    requires
        p != q,
    ensures
        bytes_lt(seq![p] + s, seq![q] + t) == (p < q),
{
    assert((seq![p] + s)[0] == p);
    assert((seq![q] + t)[0] == q);
}

/// A common prefix does not change the order of two names.
pub proof fn lemma_bytes_lt_common_prefix(c: Seq<u8>, a: Seq<u8>, b: Seq<u8>)
    ensures
        bytes_lt(c + a, c + b) == bytes_lt(a, b),
    decreases c.len(),
{
    if c.len() > 0 {
        assert((c + a).drop_first() =~= c.drop_first() + a);
        assert((c + b).drop_first() =~= c.drop_first() + b);
        assert((c + a)[0] == c[0] && (c + b)[0] == c[0]);
        lemma_bytes_lt_common_prefix(c.drop_first(), a, b);
    } else {
        assert(c + a =~= a);
        assert(c + b =~= b);
    }
}

/// A name sorts before every longer name it begins, and never after it.
pub proof fn lemma_bytes_lt_proper_prefix(a: Seq<u8>, s: Seq<u8>)
    ensures
        bytes_lt(a, a + s) == (s.len() > 0),
        !bytes_lt(a + s, a),
{
    lemma_bytes_lt_common_prefix(a, Seq::<u8>::empty(), s);
    lemma_bytes_lt_common_prefix(a, s, Seq::<u8>::empty());
    assert(a + Seq::<u8>::empty() =~= a);
}

proof fn lemma_bytes_lt_skip(a: Seq<u8>, b: Seq<u8>, i: int)
    requires
        0 <= i <= a.len(),
        i <= b.len(),
        a.take(i) == b.take(i),
    ensures
        bytes_lt(a, b) == bytes_lt(a.skip(i), b.skip(i)),
    decreases i,
{
    if i > 0 {
        assert(a[0] == a.take(i)[0]);
        assert(b[0] == b.take(i)[0]);
        assert(a.drop_first().take(i - 1) =~= b.drop_first().take(i - 1)) by {
            assert forall|k: int| 0 <= k < i - 1 implies a.drop_first()[k] == b.drop_first()[k] by {
                assert(a[k + 1] == a.take(i)[k + 1]);
                assert(b[k + 1] == b.take(i)[k + 1]);
            }
        }
        lemma_bytes_lt_skip(a.drop_first(), b.drop_first(), i - 1);
        assert(a.drop_first().skip(i - 1) =~= a.skip(i));
        assert(b.drop_first().skip(i - 1) =~= b.skip(i));
    } else {
        assert(a.skip(0) =~= a);
        assert(b.skip(0) =~= b);
    }
}

/// Whether name `a` sorts strictly before name `b`.
pub fn name_less(a: &str, b: &str) -> (lt: bool)
    ensures
        lt == name_lt(a@, b@),
{
    let x = a.as_bytes();
    let y = b.as_bytes();
    let mut i: usize = 0;
    while i < x.len() && i < y.len() && x[i] == y[i]
        invariant
            x@ == encode_utf8(a@),
            y@ == encode_utf8(b@),
            i <= x@.len(),
            i <= y@.len(),
            x@.take(i as int) == y@.take(i as int),
        decreases x@.len() - i,
    {
        assert(x@.take(i + 1) =~= x@.take(i as int).push(x@[i as int]));
        assert(y@.take(i + 1) =~= y@.take(i as int).push(y@[i as int]));
        i = i + 1;
    }
    proof {
        lemma_bytes_lt_skip(x@, y@, i as int);
    }
    if i == y.len() {
        false
    } else if i == x.len() {
        true
    } else {
        x[i] < y[i]
    }
}

/// The axis names in order, as `sort` on `Vec<String>` leaves them: the same
/// names, each as often as given, in non-decreasing byte order.
pub fn sort_axis_names(names: &Vec<String>) -> (sorted: Vec<String>)
    ensures
        names_sorted(name_texts(sorted@)),
        name_texts(sorted@).to_multiset() == name_texts(names@).to_multiset(),
{
    let mut out: Vec<String> = Vec::new();
    let mut i: usize = 0;
    while i < names.len()
        invariant
            i <= names.len(),
            names_sorted(name_texts(out@)),
            name_texts(out@).to_multiset() == name_texts(names@.take(i as int)).to_multiset(),
        decreases names.len() - i,
    {
        let x = names[i].clone();
        let mut pos: usize = 0;
        while pos < out.len() && !name_less(x.as_str(), out[pos].as_str())
            invariant
                pos <= out.len(),
                forall|k: int| 0 <= k < pos ==> !name_lt(x@, #[trigger] out@[k]@),
            decreases out.len() - pos,
        {
            pos = pos + 1;
        }
        let ghost before = name_texts(out@);
        let ghost old_out = out@;
        let ghost xv = x@;
        proof {
            if pos < out.len() {
                assert(name_lt(x@, out@[pos as int]@));
            }
        }
        out.insert(pos, x);
        let ghost after = name_texts(out@);
        proof {
            assert(after =~= before.insert(pos as int, xv));
            assert(after[pos as int] == xv);
            assert(forall|k: int| 0 <= k < pos ==> !name_lt(xv, #[trigger] before[k])) by {
                assert forall|k: int| 0 <= k < pos implies !name_lt(xv, #[trigger] before[k]) by {
                    assert(before[k] == old_out[k]@);
                }
            }
            assert forall|a: int, b: int| 0 <= a < b < after.len() implies !name_lt(
                #[trigger] after[b],
                #[trigger] after[a],
            ) by {
                if b < pos {
                    assert(after[a] == before[a] && after[b] == before[b]);
                    assert(!name_lt(after[b], after[a]));
                } else if a < pos && b == pos {
                    assert(after[a] == before[a]);
                    assert(!name_lt(xv, before[a]));
                    assert(!name_lt(after[b], after[a]));
                } else if a < pos {
                    assert(after[a] == before[a] && after[b] == before[b - 1]);
                    assert(!name_lt(before[b - 1], before[a]));
                    assert(!name_lt(after[b], after[a]));
                } else if a == pos {
                    assert(after[b] == before[b - 1]);
                    assert(pos < before.len());
                    assert(before[pos as int] == old_out[pos as int]@);
                    assert(name_lt(xv, before[pos as int]));
                    if b - 1 == pos {
                        lemma_bytes_lt_irreflexive(encode_utf8(before[pos as int]));
                    }
                    assert(!name_lt(before[b - 1], before[pos as int]));
                    if name_lt(before[b - 1], xv) {
                        lemma_bytes_lt_transitive(
                            encode_utf8(before[b - 1]),
                            encode_utf8(xv),
                            encode_utf8(before[pos as int]),
                        );
                    }
                    assert(!name_lt(after[b], after[a]));
                } else {
                    assert(after[a] == before[a - 1] && after[b] == before[b - 1]);
                    assert(!name_lt(before[b - 1], before[a - 1]));
                    assert(!name_lt(after[b], after[a]));
                }
            }
            assert(after.remove(pos as int) =~= before);
            assert(after.to_multiset() =~= before.to_multiset().insert(xv));
            assert(names@.take(i + 1) =~= names@.take(i as int).push(names@[i as int]));
            assert(name_texts(names@.take(i + 1)) =~= name_texts(names@.take(i as int)).push(
                names@[i as int]@,
            ));
        }
        i = i + 1;
    }
    assert(names@.take(names.len() as int) =~= names@);
    out
}

} // verus!
