//! Canonical query construction: the parameters are sorted by key,
//! byte-wise ascending, before they are encoded and joined, as the
//! signature scheme requires.

use vstd::prelude::*;
use crate::bytestr::spec_bytes_le;
use crate::bytestr::lemma_bytes_le_total;
use crate::bytestr::bytes_le;
use crate::encode::spec_enc_query;
use crate::encode::uri_encode_query;

verus! {

/// One query parameter, unencoded.
pub struct QueryParam {
    pub key: Vec<u8>,
    pub value: Vec<u8>,
}

/// The parameters as plain pairs of byte strings.
pub open spec fn spec_params(v: Seq<QueryParam>) -> Seq<(Seq<u8>, Seq<u8>)> {
    v.map_values(|p: QueryParam| (p.key@, p.value@))
}

/// Ordering on parameters: by key, byte-wise ascending.
pub open spec fn spec_param_le(a: (Seq<u8>, Seq<u8>), b: (Seq<u8>, Seq<u8>)) -> bool {
    spec_bytes_le(a.0, b.0)
}

/// Inserts `x` behind every parameter whose key is less than or equal,
/// which keeps the insertion order of equal keys.
pub open spec fn spec_insert_param(s: Seq<(Seq<u8>, Seq<u8>)>, x: (Seq<u8>, Seq<u8>)) -> Seq<
    (Seq<u8>, Seq<u8>),
>
    decreases s.len(),
{
    if s.len() > 0 && spec_param_le(s[0], x) {
        seq![s[0]] + spec_insert_param(s.drop_first(), x)
    } else {
        seq![x] + s
    }
}

/// Stable insertion sort of the parameters by key.
pub open spec fn spec_sort_params(s: Seq<(Seq<u8>, Seq<u8>)>) -> Seq<(Seq<u8>, Seq<u8>)>
    decreases s.len(),
{
    if s.len() == 0 {
        s
    } else {
        spec_insert_param(spec_sort_params(s.drop_last()), s.last())
    }
}

/// Keys appear in ascending byte-wise order.
pub open spec fn spec_sorted_keys(s: Seq<(Seq<u8>, Seq<u8>)>) -> bool {
    forall|i: int, j: int|
        0 <= i < j < s.len() ==> spec_param_le(#[trigger] s[i], #[trigger] s[j])
}

/// `k` occurs among the keys of `s`.
pub open spec fn spec_key_in(s: Seq<(Seq<u8>, Seq<u8>)>, k: Seq<u8>) -> bool {
    exists|i: int| 0 <= i < s.len() && (#[trigger] s[i]).0 == k
}

/// No two parameters share a key.
pub open spec fn spec_distinct_keys(s: Seq<(Seq<u8>, Seq<u8>)>) -> bool {
    forall|i: int, j: int|
        0 <= i < j < s.len() ==> (#[trigger] s[i]).0 != (#[trigger] s[j]).0
}

/// The lexicographic order on byte strings is transitive.
proof fn lemma_bytes_le_trans(a: Seq<u8>, b: Seq<u8>, c: Seq<u8>)
    requires
        spec_bytes_le(a, b),
        spec_bytes_le(b, c),
    ensures
        spec_bytes_le(a, c),
    decreases a.len(),
{
    if a.len() > 0 {
        if a[0] == b[0] && b[0] == c[0] {
            lemma_bytes_le_trans(a.drop_first(), b.drop_first(), c.drop_first());
        }
    }
}

proof fn lemma_insert_param_sorted(s: Seq<(Seq<u8>, Seq<u8>)>, x: (Seq<u8>, Seq<u8>))
    requires
        spec_sorted_keys(s),
    ensures
        spec_sorted_keys(spec_insert_param(s, x)),
    decreases s.len(),
{
    if s.len() > 0 && spec_param_le(s[0], x) {
        let t = s.drop_first();
        assert(spec_sorted_keys(t)) by {
            assert(forall|i: int, j: int|
                0 <= i < j < t.len() ==> spec_param_le(#[trigger] t[i], #[trigger] t[j]) == spec_param_le(
                    s[i + 1],
                    s[j + 1],
                ));
        }
        lemma_insert_param_sorted(t, x);
        let r = seq![s[0]] + spec_insert_param(t, x);
        // the head is below everything inserted behind it
        assert forall|i: int, j: int| 0 <= i < j < r.len() implies spec_param_le(
            #[trigger] r[i],
            #[trigger] r[j],
        ) by {
            if i == 0 {
                lemma_insert_param_head(t, x);
                let u = spec_insert_param(t, x);
                assert(r[j] == u[j - 1]);
                if u[j - 1] == x {
                    assert(spec_param_le(s[0], x));
                } else {
                    lemma_insert_param_members(t, x, j - 1);
                    if u[j - 1] != x {
                        let w = choose|w: int| 0 <= w < t.len() && t[w] == u[j - 1];
                        assert(spec_param_le(s[0], t[w])) by {
                            assert(t[w] == s[w + 1]);
                            assert(spec_param_le(s[0], s[w + 1]));
                        }
                    }
                }
            } else {
                let u = spec_insert_param(t, x);
                assert(r[i] == u[i - 1] && r[j] == u[j - 1]);
            }
        }
    } else {
        let r = seq![x] + s;
        assert forall|i: int, j: int| 0 <= i < j < r.len() implies spec_param_le(
            #[trigger] r[i],
            #[trigger] r[j],
        ) by {
            if i == 0 {
                if s.len() > 0 {
                    // x goes below the head by totality, and below the rest
                    // through the head by transitivity
                    lemma_bytes_le_total(s[0].0, x.0);
                    assert(spec_param_le(x, s[0]));
                    if j > 1 {
                        assert(spec_param_le(s[0], s[j - 1]));
                        lemma_bytes_le_trans(x.0, s[0].0, s[j - 1].0);
                    }
                }
            } else {
                assert(r[i] == s[i - 1] && r[j] == s[j - 1]);
            }
        }
    }
}

/// Every element of the insertion result is `x` or an element of `s`.
proof fn lemma_insert_param_members(s: Seq<(Seq<u8>, Seq<u8>)>, x: (Seq<u8>, Seq<u8>), i: int)
    requires
        0 <= i < spec_insert_param(s, x).len(),
    ensures
        spec_insert_param(s, x)[i] == x || exists|w: int|
            0 <= w < s.len() && s[w] == spec_insert_param(s, x)[i],
    decreases s.len(),
{
    let u = spec_insert_param(s, x);
    if s.len() > 0 && spec_param_le(s[0], x) {
        if i == 0 {
            assert(u[0] == s[0]);
        } else {
            lemma_insert_param_members(s.drop_first(), x, i - 1);
            assert(u[i] == spec_insert_param(s.drop_first(), x)[i - 1]);
            if u[i] != x {
                let w = choose|w: int|
                    0 <= w < s.drop_first().len() && s.drop_first()[w] == u[i];
                assert(s[w + 1] == u[i]);
            }
        }
    } else {
        if i == 0 {
            assert(u[0] == x);
        } else {
            assert(u[i] == s[i - 1]);
        }
    }
}

proof fn lemma_insert_param_head(s: Seq<(Seq<u8>, Seq<u8>)>, x: (Seq<u8>, Seq<u8>))
    ensures
        spec_insert_param(s, x).len() == s.len() + 1,
    decreases s.len(),
{
    if s.len() > 0 && spec_param_le(s[0], x) {
        lemma_insert_param_head(s.drop_first(), x);
    }
}

/// The canonical ordering law: however the parameters are handed in,
/// the sorted sequence carries its keys in ascending byte-wise order.
pub proof fn lemma_sort_params_sorted(s: Seq<(Seq<u8>, Seq<u8>)>)
    ensures
        spec_sorted_keys(spec_sort_params(s)),
    decreases s.len(),
{
    if s.len() > 0 {
        lemma_sort_params_sorted(s.drop_last());
        lemma_insert_param_sorted(spec_sort_params(s.drop_last()), s.last());
    }
}

proof fn lemma_insert_param_key_in(
    s: Seq<(Seq<u8>, Seq<u8>)>,
    x: (Seq<u8>, Seq<u8>),
    k: Seq<u8>,
)
    ensures
        spec_key_in(spec_insert_param(s, x), k) <==> (spec_key_in(s, k) || x.0 == k),
    decreases s.len(),
{
    let u = spec_insert_param(s, x);
    lemma_insert_param_head(s, x);
    if s.len() > 0 && spec_param_le(s[0], x) {
        let t = s.drop_first();
        lemma_insert_param_key_in(t, x, k);
        let v = spec_insert_param(t, x);
        assert(forall|i: int| 0 <= i < v.len() ==> u[i + 1] == #[trigger] v[i]);
        assert(u[0] == s[0]);
        if spec_key_in(u, k) {
            let i = choose|i: int| 0 <= i < u.len() && (#[trigger] u[i]).0 == k;
            if i == 0 {
                assert(s[0].0 == k);
            } else {
                assert(v[i - 1].0 == k);
                if spec_key_in(t, k) {
                    let w = choose|w: int| 0 <= w < t.len() && (#[trigger] t[w]).0 == k;
                    assert(s[w + 1].0 == k);
                }
            }
        }
        if spec_key_in(s, k) {
            let i = choose|i: int| 0 <= i < s.len() && (#[trigger] s[i]).0 == k;
            if i == 0 {
                assert(u[0].0 == k);
            } else {
                assert(t[i - 1].0 == k);
                assert(spec_key_in(v, k));
                let w = choose|w: int| 0 <= w < v.len() && (#[trigger] v[w]).0 == k;
                assert(u[w + 1].0 == k);
            }
        }
        if x.0 == k {
            assert(spec_key_in(v, k));
            let w = choose|w: int| 0 <= w < v.len() && (#[trigger] v[w]).0 == k;
            assert(u[w + 1].0 == k);
        }
    } else {
        assert(u[0] == x);
        assert(forall|i: int| 0 <= i < s.len() ==> u[i + 1] == #[trigger] s[i]);
        if spec_key_in(u, k) {
            let i = choose|i: int| 0 <= i < u.len() && (#[trigger] u[i]).0 == k;
            if i > 0 {
                assert(s[i - 1].0 == k);
            }
        }
        if spec_key_in(s, k) {
            let i = choose|i: int| 0 <= i < s.len() && (#[trigger] s[i]).0 == k;
            assert(u[i + 1].0 == k);
        }
    }
}

proof fn lemma_sort_params_key_in(s: Seq<(Seq<u8>, Seq<u8>)>, k: Seq<u8>)
    ensures
        spec_key_in(spec_sort_params(s), k) <==> spec_key_in(s, k),
    decreases s.len(),
{
    if s.len() > 0 {
        let t = s.drop_last();
        lemma_sort_params_key_in(t, k);
        lemma_insert_param_key_in(spec_sort_params(t), s.last(), k);
        assert(forall|i: int| 0 <= i < t.len() ==> #[trigger] s[i] == t[i]);
        if spec_key_in(s, k) {
            let i = choose|i: int| 0 <= i < s.len() && (#[trigger] s[i]).0 == k;
            if i < t.len() {
                assert(t[i].0 == k);
            } else {
                assert(s.last().0 == k);
            }
        }
        if spec_key_in(t, k) {
            let i = choose|i: int| 0 <= i < t.len() && (#[trigger] t[i]).0 == k;
            assert(s[i].0 == k);
        }
    }
}

proof fn lemma_insert_param_distinct(s: Seq<(Seq<u8>, Seq<u8>)>, x: (Seq<u8>, Seq<u8>))
    requires
        spec_distinct_keys(s),
        !spec_key_in(s, x.0),
    ensures
        spec_distinct_keys(spec_insert_param(s, x)),
    decreases s.len(),
{
    let u = spec_insert_param(s, x);
    lemma_insert_param_head(s, x);
    if s.len() > 0 && spec_param_le(s[0], x) {
        let t = s.drop_first();
        assert(spec_distinct_keys(t)) by {
            assert(forall|i: int| 0 <= i < t.len() ==> #[trigger] t[i] == s[i + 1]);
        }
        assert(!spec_key_in(t, x.0)) by {
            if spec_key_in(t, x.0) {
                let i = choose|i: int| 0 <= i < t.len() && (#[trigger] t[i]).0 == x.0;
                assert(s[i + 1].0 == x.0);
            }
        }
        lemma_insert_param_distinct(t, x);
        let v = spec_insert_param(t, x);
        assert forall|i: int, j: int| 0 <= i < j < u.len() implies (#[trigger] u[i]).0 != (
        #[trigger] u[j]).0 by {
            if i == 0 {
                assert(u[0] == s[0]);
                assert(u[j] == v[j - 1]);
                lemma_insert_param_members(t, x, j - 1);
                if v[j - 1] == x {
                    assert(s[0].0 != x.0);
                } else {
                    let w = choose|w: int| 0 <= w < t.len() && t[w] == v[j - 1];
                    assert(t[w] == s[w + 1]);
                    assert(s[0].0 != s[w + 1].0);
                }
            } else {
                assert(u[i] == v[i - 1] && u[j] == v[j - 1]);
            }
        }
    } else {
        assert(u[0] == x);
        assert(forall|i: int| 0 <= i < s.len() ==> u[i + 1] == #[trigger] s[i]);
        assert forall|i: int, j: int| 0 <= i < j < u.len() implies (#[trigger] u[i]).0 != (
        #[trigger] u[j]).0 by {
            if i == 0 {
                assert(u[j] == s[j - 1]);
                if s[j - 1].0 == x.0 {
                    assert(spec_key_in(s, x.0));
                }
            } else {
                assert(u[i] == s[i - 1] && u[j] == s[j - 1]);
            }
        }
    }
}

/// Sorting keeps keys distinct when they were distinct to begin with.
pub proof fn lemma_sort_params_distinct(s: Seq<(Seq<u8>, Seq<u8>)>)
    requires
        spec_distinct_keys(s),
    ensures
        spec_distinct_keys(spec_sort_params(s)),
    decreases s.len(),
{
    if s.len() > 0 {
        let t = s.drop_last();
        assert(spec_distinct_keys(t)) by {
            assert(forall|i: int| 0 <= i < t.len() ==> #[trigger] t[i] == s[i]);
        }
        lemma_sort_params_distinct(t);
        assert(!spec_key_in(t, s.last().0)) by {
            if spec_key_in(t, s.last().0) {
                let i = choose|i: int| 0 <= i < t.len() && (#[trigger] t[i]).0 == s.last().0;
                assert(s[i].0 == s[s.len() - 1].0);
            }
        }
        lemma_sort_params_key_in(t, s.last().0);
        lemma_insert_param_distinct(spec_sort_params(t), s.last());
    }
}

/// Parameters with pairwise distinct keys stand in strictly ascending
/// key order once sorted: later keys are greater-or-equal and never
/// equal.
pub proof fn lemma_sorted_params_strictly_ascending(s: Seq<(Seq<u8>, Seq<u8>)>)
    requires
        spec_distinct_keys(s),
    ensures
        forall|i: int, j: int|
            0 <= i < j < spec_sort_params(s).len() ==> spec_param_le(
                #[trigger] spec_sort_params(s)[i],
                #[trigger] spec_sort_params(s)[j],
            ) && spec_sort_params(s)[i].0 != spec_sort_params(s)[j].0,
{
    lemma_sort_params_sorted(s);
    lemma_sort_params_distinct(s);
}

/// `key=value` with both sides query-encoded.
pub open spec fn spec_kv(p: (Seq<u8>, Seq<u8>)) -> Seq<u8> {
    spec_enc_query(p.0) + seq![0x3du8] + spec_enc_query(p.1)
}

/// The encoded parameters joined with `&`, in the order given.
pub open spec fn spec_join_params(s: Seq<(Seq<u8>, Seq<u8>)>) -> Seq<u8>
    decreases s.len(),
{
    if s.len() == 0 {
        seq![]
    } else if s.len() == 1 {
        spec_kv(s[0])
    } else {
        spec_join_params(s.drop_last()) + seq![0x26u8] + spec_kv(s.last())
    }
}

/// The canonical query of a parameter set: sorted by key, encoded and
/// joined.
pub open spec fn spec_canonical_query_of(s: Seq<(Seq<u8>, Seq<u8>)>) -> Seq<u8> {
    spec_join_params(spec_sort_params(s))
}

fn insert_param(sorted: &mut Vec<QueryParam>, x: QueryParam)
    ensures
        spec_params(final(sorted)@) == spec_insert_param(
            spec_params(old(sorted)@),
            (x.key@, x.value@),
        ),
{
    let ghost sp = spec_params(old(sorted)@);
    let ghost xp = (x.key@, x.value@);
    let mut i: usize = 0;
    while i < sorted.len() && bytes_le(sorted[i].key.as_slice(), x.key.as_slice())
        invariant
            i <= sorted@.len(),
            sorted@ == old(sorted)@,
            sp == spec_params(sorted@),
            xp == (x.key@, x.value@),
            sp.len() == sorted@.len(),
            forall|j: int| 0 <= j < i ==> spec_param_le(#[trigger] sp[j], xp),
        decreases sorted@.len() - i,
    {
        proof {
            assert(sp[i as int] == (sorted@[i as int].key@, sorted@[i as int].value@));
        }
        i = i + 1;
    }
    proof {
        if i < sorted@.len() {
            assert(sp[i as int] == (sorted@[i as int].key@, sorted@[i as int].value@));
            assert(!spec_param_le(sp[i as int], xp));
        }
    }
    sorted.insert(i, x);
    proof {
        lemma_insert_param_at(sp, xp, i as int);
        assert(spec_params(final(sorted)@) =~= sp.insert(i as int, xp)) by {
            assert(final(sorted)@ == old(sorted)@.insert(i as int, x));
        }
    }
}

/// Where the scan stopped is where the spec-level insertion places the
/// element.
proof fn lemma_insert_param_at(s: Seq<(Seq<u8>, Seq<u8>)>, x: (Seq<u8>, Seq<u8>), i: int)
    requires
        0 <= i <= s.len(),
        forall|j: int| 0 <= j < i ==> spec_param_le(#[trigger] s[j], x),
        i < s.len() ==> !spec_param_le(s[i], x),
    ensures
        spec_insert_param(s, x) == s.insert(i, x),
    decreases i,
{
    if i == 0 {
        assert(spec_insert_param(s, x) =~= s.insert(0, x));
    } else {
        let t = s.drop_first();
        assert(forall|j: int| 0 <= j < i - 1 ==> #[trigger] t[j] == s[j + 1]);
        assert(i - 1 < t.len() ==> !spec_param_le(t[i - 1], x)) by {
            if i - 1 < t.len() {
                assert(t[i - 1] == s[i]);
            }
        }
        lemma_insert_param_at(t, x, i - 1);
        assert(spec_insert_param(s, x) =~= seq![s[0]] + t.insert(i - 1, x));
        assert(seq![s[0]] + t.insert(i - 1, x) =~= s.insert(i, x));
    }
}

/// Sorts the parameters by key, keeping the given order of equal keys.
pub fn sort_params(params: Vec<QueryParam>) -> (r: Vec<QueryParam>)
    ensures
        spec_params(r@) == spec_sort_params(spec_params(params@)),
    decreases params@.len(),
{
    let mut ps = params;
    if ps.len() == 0 {
        return ps;
    }
    let x = ps.pop().unwrap();
    let ghost w = spec_params(params@);
    proof {
        assert(ps@ =~= params@.drop_last());
        assert(spec_params(ps@) =~= w.drop_last());
        assert(w.last() == (x.key@, x.value@));
        assert(w.len() > 0);
    }
    let mut sorted = sort_params(ps);
    insert_param(&mut sorted, x);
    proof {
        assert(spec_sort_params(w) == spec_insert_param(
            spec_sort_params(w.drop_last()),
            w.last(),
        ));
    }
    sorted
}

/// Builds the canonical query string: the parameters sorted by key,
/// each side query-encoded, joined as `k=v` pairs with `&`.
pub fn build_canonical_query(params: Vec<QueryParam>) -> (r: Vec<u8>)
    ensures
        r@ == spec_canonical_query_of(spec_params(params@)),
{
    let ghost goal = spec_sort_params(spec_params(params@));
    let sorted = sort_params(params);
    let mut out: Vec<u8> = Vec::new();
    let n = sorted.len();
    proof {
        assert(spec_params(sorted@).len() == sorted@.len());
    }
    for i in 0..n
        invariant
            n == sorted@.len(),
            spec_params(sorted@) == goal,
            out@ == spec_join_params(goal.take(i as int)),
    {
        if i > 0 {
            out.push(0x26);
        }
        let enc_k = uri_encode_query(sorted[i].key.as_slice());
        crate::address::push_all(&mut out, enc_k.as_slice());
        out.push(0x3d);
        let enc_v = uri_encode_query(sorted[i].value.as_slice());
        crate::address::push_all(&mut out, enc_v.as_slice());
        proof {
            let t = goal.take(i + 1);
            assert(t.drop_last() =~= goal.take(i as int));
            assert(t.last() == goal[i as int]);
            assert(goal[i as int] == (sorted@[i as int].key@, sorted@[i as int].value@));
            if i == 0 {
                assert(out@ =~= spec_kv(goal[0]));
            } else {
                assert(out@ =~= spec_join_params(goal.take(i as int)) + seq![0x26u8] + spec_kv(
                    goal[i as int],
                ));
            }
        }
    }
    proof {
        assert(goal.take(goal.len() as int) =~= goal);
    }
    out
}

} // verus!
