//! Stable ordering of table rows by an integer or a text key.

use vstd::prelude::*;

verus! {

broadcast use vstd::seq_lib::group_to_multiset_ensures;

/// Row `a` comes before row `b`: its key is smaller (larger when
/// `descending`), or the keys are equal and `a` came first.
pub open spec fn row_before(keys: Seq<i64>, descending: bool, a: usize, b: usize) -> bool {
    let ka = keys[a as int];
    let kb = keys[b as int];
    (if descending {
        ka > kb
    } else {
        ka < kb
    }) || (ka == kb && a < b)
}

/// `order` is the stable ordering of the rows: strictly increasing in
/// `row_before` and holding exactly the row indices.
pub open spec fn is_stable_order(keys: Seq<i64>, descending: bool, order: Seq<usize>) -> bool {
    &&& forall|i: int, j: int|
        0 <= i < j < order.len() ==> row_before(keys, descending, #[trigger] order[i], #[trigger] order[j])
    &&& forall|r: usize| #[trigger] order.contains(r) <==> r < keys.len()
}

fn before(keys: &Vec<i64>, descending: bool, a: usize, b: usize) -> (r: bool)
    requires
        a < keys@.len(),
        b < keys@.len(),
    ensures
        r == row_before(keys@, descending, a, b),
{
    let ka = keys[a];
    let kb = keys[b];
    (if descending {
        ka > kb
    } else {
        ka < kb
    }) || (ka == kb && a < b)
}

/// Row indices ordered by key (ascending, or descending when asked), rows
/// with equal keys in their given order: what a stable sort of the rows
/// by their keys produces.
pub fn stable_order(keys: &Vec<i64>, descending: bool) -> (order: Vec<usize>)
    ensures
        is_stable_order(keys@, descending, order@),
        order@.len() == keys@.len(),
{
    let mut out: Vec<usize> = Vec::new();
    let mut i: usize = 0;
    while i < keys.len()
        invariant
            i <= keys@.len(),
            forall|a: int, b: int|
                0 <= a < b < out@.len() ==> row_before(keys@, descending, #[trigger] out@[a], #[trigger] out@[b]),
            forall|r: usize| #[trigger] out@.contains(r) <==> r < i,
            out@.len() == i,
        decreases keys@.len() - i,
    {
        let mut p: usize = 0;
        proof {
            assert forall|j: int| 0 <= j < out@.len() implies (#[trigger] out@[j]) < i by {
                assert(out@.contains(out@[j]));
            }
        }
        while p < out.len() && !before(keys, descending, i, out[p])
            invariant
                i < keys@.len(),
                forall|j: int| 0 <= j < out@.len() ==> (#[trigger] out@[j]) < i,
                p <= out@.len(),
                forall|r: usize| #[trigger] out@.contains(r) <==> r < i,
                forall|j: int| 0 <= j < p ==> !row_before(keys@, descending, i, #[trigger] out@[j]),
            decreases out@.len() - p,
        {
            assert(out@.contains(out@[p as int]));
            p = p + 1;
        }
        proof {
            assert forall|j: int| 0 <= j < p implies row_before(keys@, descending, #[trigger] out@[j], i) by {
                assert(out@.contains(out@[j]));
            }
            if p < out@.len() {
                assert forall|j: int| p <= j < out@.len() implies row_before(keys@, descending, i, #[trigger] out@[j]) by {
                    assert(out@.contains(out@[j]));
                    assert(out@.contains(out@[p as int]));
                }
            }
        }
        let ghost old_out = out@;
        out.insert(p, i);
        proof {
            assert forall|a: int, b: int| 0 <= a < b < out@.len() implies row_before(keys@, descending, #[trigger] out@[a], #[trigger] out@[b]) by {
                if a < p && b == p {
                } else if a < p && b > p {
                    assert(out@[b] == old_out[b - 1]);
                } else if a == p {
                    assert(out@[b] == old_out[b - 1]);
                } else if b < p {
                } else {
                    assert(out@[a] == old_out[a - 1]);
                    assert(out@[b] == old_out[b - 1]);
                }
            }
            assert forall|r: usize| #[trigger] out@.contains(r) <==> r < i + 1 by {
                if out@.contains(r) {
                    let k = choose|k: int| 0 <= k < out@.len() && out@[k] == r;
                    if k < p {
                        assert(old_out[k] == r);
                        assert(old_out.contains(r));
                    } else if k > p {
                        assert(old_out[k - 1] == r);
                        assert(old_out.contains(r));
                    }
                }
                if r < i {
                    assert(old_out.contains(r));
                    let m = choose|m: int| 0 <= m < old_out.len() && old_out[m] == r;
                    if m < p {
                        assert(out@[m] == r);
                    } else {
                        assert(out@[m + 1] == r);
                    }
                } else if r == i {
                    assert(out@[p as int] == r);
                }
            }
        }
        i = i + 1;
    }
    out
}

/// `a` comes before `b` in code-point order: at the first position where
/// they differ `a` has the smaller character, or `a` is a proper prefix of
/// `b`. (On UTF-8 text this is the byte order `str` comparison uses.)
pub open spec fn text_lt(a: Seq<char>, b: Seq<char>) -> bool
    decreases a.len(),
{
    if a.len() == 0 {
        b.len() > 0
    } else if b.len() == 0 {
        false
    } else if a[0] != b[0] {
        (a[0] as int) < (b[0] as int)
    } else {
        text_lt(a.skip(1), b.skip(1))
    }
}

proof fn lemma_text_lt_irreflexive(a: Seq<char>)
    ensures
        !text_lt(a, a),
    decreases a.len(),
{
    if a.len() > 0 {
        lemma_text_lt_irreflexive(a.skip(1));
    }
}

proof fn lemma_text_lt_total(a: Seq<char>, b: Seq<char>)
    ensures
        a != b ==> text_lt(a, b) || text_lt(b, a),
        !(text_lt(a, b) && text_lt(b, a)),
    decreases a.len(),
{
    if a.len() > 0 && b.len() > 0 {
        lemma_text_lt_total(a.skip(1), b.skip(1));
        if a[0] == b[0] && a.skip(1) == b.skip(1) {
            assert(a =~= seq![a[0]] + a.skip(1));
            assert(b =~= seq![b[0]] + b.skip(1));
        }
    } else if a.len() == 0 && b.len() == 0 {
        assert(a =~= b);
    }
}

proof fn lemma_text_lt_transitive(a: Seq<char>, b: Seq<char>, c: Seq<char>)
    requires
        text_lt(a, b),
        text_lt(b, c),
    ensures
        text_lt(a, c),
    decreases a.len(),
{
    if a.len() > 0 && b.len() > 0 && c.len() > 0 && a[0] == b[0] && b[0] == c[0] {
        lemma_text_lt_transitive(a.skip(1), b.skip(1), c.skip(1));
    }
}

/// Row `a` comes before row `b` by text key: its key comes first (last when
/// `descending`), or the keys are equal and `a` came first.
pub open spec fn text_row_before(keys: Seq<String>, descending: bool, a: usize, b: usize) -> bool {
    let ka = keys[a as int]@;
    let kb = keys[b as int]@;
    (if descending {
        text_lt(kb, ka)
    } else {
        text_lt(ka, kb)
    }) || (ka == kb && a < b)
}

/// `order` is the stable ordering of the rows by text key: strictly
/// increasing in `text_row_before` and holding exactly the row indices.
pub open spec fn is_stable_text_order(keys: Seq<String>, descending: bool, order: Seq<usize>) -> bool {
    &&& forall|i: int, j: int|
        0 <= i < j < order.len() ==> text_row_before(keys, descending, #[trigger] order[i], #[trigger] order[j])
    &&& forall|r: usize| #[trigger] order.contains(r) <==> r < keys.len()
}

proof fn lemma_text_row_before_trans(keys: Seq<String>, descending: bool, a: usize, b: usize, c: usize)
    requires
        a < keys.len(),
        b < keys.len(),
        c < keys.len(),
        text_row_before(keys, descending, a, b),
        text_row_before(keys, descending, b, c),
    ensures
        text_row_before(keys, descending, a, c),
{
    let (ka, kb, kc) = (keys[a as int]@, keys[b as int]@, keys[c as int]@);
    if descending {
        if text_lt(kb, ka) && text_lt(kc, kb) {
            lemma_text_lt_transitive(kc, kb, ka);
        }
    } else {
        if text_lt(ka, kb) && text_lt(kb, kc) {
            lemma_text_lt_transitive(ka, kb, kc);
        }
    }
}

proof fn lemma_text_row_before_total(keys: Seq<String>, descending: bool, a: usize, b: usize)
    requires
        a < keys.len(),
        b < keys.len(),
        a != b,
    ensures
        text_row_before(keys, descending, a, b) != text_row_before(keys, descending, b, a),
{
    lemma_text_lt_total(keys[a as int]@, keys[b as int]@);
    lemma_text_lt_irreflexive(keys[a as int]@);
}

/// Whether `a` comes before `b` in code-point order.
pub fn text_less(a: &str, b: &str) -> (r: bool)
    ensures
        r == text_lt(a@, b@),
{
    let na = a.unicode_len();
    let nb = b.unicode_len();
    let mut i: usize = 0;
    proof {
        assert(a@.skip(0) =~= a@);
        assert(b@.skip(0) =~= b@);
    }
    while i < na && i < nb
        invariant
            na == a@.len(),
            nb == b@.len(),
            i <= na,
            i <= nb,
            text_lt(a@, b@) == text_lt(a@.skip(i as int), b@.skip(i as int)),
        decreases na - i,
    {
        let ca = a.get_char(i);
        let cb = b.get_char(i);
        proof {
            assert(a@.skip(i as int)[0] == ca);
            assert(b@.skip(i as int)[0] == cb);
            assert(a@.skip(i as int).skip(1) =~= a@.skip(i + 1));
            assert(b@.skip(i as int).skip(1) =~= b@.skip(i + 1));
        }
        if ca != cb {
            return (ca as u32) < (cb as u32);
        }
        i = i + 1;
    }
    proof {
        assert(a@.skip(i as int).len() == na - i);
        assert(b@.skip(i as int).len() == nb - i);
    }
    i == na && i < nb
}

fn text_before(keys: &Vec<String>, descending: bool, a: usize, b: usize) -> (r: bool)
    requires
        a < keys@.len(),
        b < keys@.len(),
    ensures
        r == text_row_before(keys@, descending, a, b),
{
    let ka = keys[a].as_str();
    let kb = keys[b].as_str();
    let lt = if descending {
        text_less(kb, ka)
    } else {
        text_less(ka, kb)
    };
    if lt {
        return true;
    }
    if a < b {
        let back = if descending {
            text_less(ka, kb)
        } else {
            text_less(kb, ka)
        };
        proof {
            lemma_text_lt_total(keys@[a as int]@, keys@[b as int]@);
        }
        !back
    } else {
        false
    }
}

/// Row indices ordered by text key (ascending, or descending when asked),
/// rows with equal keys in their given order: what a stable sort of the
/// rows by `String` comparison produces.
pub fn stable_text_order(keys: &Vec<String>, descending: bool) -> (order: Vec<usize>)
    ensures
        is_stable_text_order(keys@, descending, order@),
        order@.len() == keys@.len(),
{
    let mut out: Vec<usize> = Vec::new();
    let mut i: usize = 0;
    while i < keys.len()
        invariant
            i <= keys@.len(),
            forall|a: int, b: int|
                0 <= a < b < out@.len() ==> text_row_before(keys@, descending, #[trigger] out@[a], #[trigger] out@[b]),
            forall|r: usize| #[trigger] out@.contains(r) <==> r < i,
            out@.len() == i,
        decreases keys@.len() - i,
    {
        let mut p: usize = 0;
        proof {
            assert forall|j: int| 0 <= j < out@.len() implies (#[trigger] out@[j]) < i by {
                assert(out@.contains(out@[j]));
            }
        }
        while p < out.len() && !text_before(keys, descending, i, out[p])
            invariant
                i < keys@.len(),
                forall|j: int| 0 <= j < out@.len() ==> (#[trigger] out@[j]) < i,
                p <= out@.len(),
                forall|r: usize| #[trigger] out@.contains(r) <==> r < i,
                forall|j: int| 0 <= j < p ==> !text_row_before(keys@, descending, i, #[trigger] out@[j]),
            decreases out@.len() - p,
        {
            assert(out@.contains(out@[p as int]));
            p = p + 1;
        }
        proof {
            assert forall|j: int| 0 <= j < p implies text_row_before(keys@, descending, #[trigger] out@[j], i) by {
                assert(out@.contains(out@[j]));
                lemma_text_row_before_total(keys@, descending, i, out@[j]);
            }
            if p < out@.len() {
                assert forall|j: int| p <= j < out@.len() implies text_row_before(keys@, descending, i, #[trigger] out@[j]) by {
                    assert(out@.contains(out@[j]));
                    assert(out@.contains(out@[p as int]));
                    if j > p {
                        lemma_text_row_before_trans(keys@, descending, i, out@[p as int], out@[j]);
                    }
                }
            }
        }
        let ghost old_out = out@;
        out.insert(p, i);
        proof {
            assert forall|a: int, b: int| 0 <= a < b < out@.len() implies text_row_before(keys@, descending, #[trigger] out@[a], #[trigger] out@[b]) by {
                if a < p && b == p {
                } else if a < p && b > p {
                    assert(out@[b] == old_out[b - 1]);
                } else if a == p {
                    assert(out@[b] == old_out[b - 1]);
                } else if b < p {
                } else {
                    assert(out@[a] == old_out[a - 1]);
                    assert(out@[b] == old_out[b - 1]);
                }
            }
            assert forall|r: usize| #[trigger] out@.contains(r) <==> r < i + 1 by {
                if out@.contains(r) {
                    let k = choose|k: int| 0 <= k < out@.len() && out@[k] == r;
                    if k < p {
                        assert(old_out[k] == r);
                        assert(old_out.contains(r));
                    } else if k > p {
                        assert(old_out[k - 1] == r);
                        assert(old_out.contains(r));
                    }
                }
                if r < i {
                    assert(old_out.contains(r));
                    let m = choose|m: int| 0 <= m < old_out.len() && old_out[m] == r;
                    if m < p {
                        assert(out@[m] == r);
                    } else {
                        assert(out@[m + 1] == r);
                    }
                } else if r == i {
                    assert(out@[p as int] == r);
                }
            }
        }
        i = i + 1;
    }
    out
}

} // verus!
