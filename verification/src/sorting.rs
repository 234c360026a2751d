//! Sort keys and a verified stable insertion sort of list indices by key.

use vstd::prelude::*;
use crate::text::chars_of;

verus! {

broadcast use vstd::seq_lib::group_to_multiset_ensures;

/// Lexicographic `<=` on character sequences (code point order, which is the
/// byte order of their UTF-8 encodings), comparing from position `i` on.
pub open spec fn lex_le_from(a: Seq<char>, b: Seq<char>, i: int) -> bool
    decreases a.len() - i,
{
    if i < 0 || i >= a.len() {
        true
    } else if i >= b.len() {
        false
    } else if (a[i] as u32) < (b[i] as u32) {
        true
    } else if (a[i] as u32) > (b[i] as u32) {
        false
    } else {
        lex_le_from(a, b, i + 1)
    }
}

/// Lexicographic `<=` on character sequences.
pub open spec fn lex_le(a: Seq<char>, b: Seq<char>) -> bool {
    lex_le_from(a, b, 0)
}

/// Lexicographic order is total.
pub proof fn lemma_lex_total(a: Seq<char>, b: Seq<char>, i: int)
    requires
        0 <= i,
    ensures
        lex_le_from(a, b, i) || lex_le_from(b, a, i),
    decreases a.len() - i,
{
    if i < a.len() && i < b.len() && (a[i] as u32) == (b[i] as u32) {
        lemma_lex_total(a, b, i + 1);
    }
}

/// Lexicographic order is transitive.
pub proof fn lemma_lex_trans(a: Seq<char>, b: Seq<char>, c: Seq<char>, i: int)
    requires
        0 <= i,
        lex_le_from(a, b, i),
        lex_le_from(b, c, i),
    ensures
        lex_le_from(a, c, i),
    decreases a.len() - i,
{
    if i < a.len() && i < b.len() && i < c.len() && (a[i] as u32) == (b[i] as u32) && (b[i] as u32) == (c[i] as u32) {
        lemma_lex_trans(a, b, c, i + 1);
    }
}

/// Lexicographic `<=` of two character vectors.
pub fn lex_le_exec(a: &Vec<char>, b: &Vec<char>) -> (r: bool)
    ensures
        r == lex_le(a@, b@),
{
    let mut i: usize = 0;
    while i < a.len()
        invariant
            i <= a.len(),
            lex_le(a@, b@) == lex_le_from(a@, b@, i as int),
        decreases a.len() - i,
    {
        if i >= b.len() {
            return false;
        }
        let x = a[i] as u32;
        let y = b[i] as u32;
        if x < y {
            return true;
        }
        if x > y {
            return false;
        }
        i = i + 1;
    }
    true
}

/// `a` sorts strictly after `b` (`a > b` on strings).
pub fn str_after(a: &str, b: &str) -> (r: bool)
    ensures
        r == !lex_le(a@, b@),
{
    let va = chars_of(a);
    let vb = chars_of(b);
    !lex_le_exec(&va, &vb)
}

/// The value a list row is sorted by: an optional text (name, date) or an
/// optional number. A missing value sorts before any present one.
#[derive(Debug, Clone)]
pub enum SortVal {
    Text(Option<Vec<char>>),
    Num(Option<i64>),
}

/// The mathematical content of a sort value.
pub open spec fn val_view(v: SortVal) -> SortValView {
    match v {
        SortVal::Text(t) => SortValView::Text(match t { Some(s) => Some(s@), None => None }),
        SortVal::Num(n) => SortValView::Num(n),
    }
}

/// Ghost form of [`SortVal`].
pub ghost enum SortValView {
    Text(Option<Seq<char>>),
    Num(Option<i64>),
}

/// `<=` on sort values: missing first, then by text or number; texts sort
/// before numbers (a list never mixes the two).
pub open spec fn val_le(a: SortValView, b: SortValView) -> bool {
    match (a, b) {
        (SortValView::Text(x), SortValView::Text(y)) => match (x, y) {
            (None, _) => true,
            (Some(_), None) => false,
            (Some(p), Some(q)) => lex_le(p, q),
        },
        (SortValView::Num(x), SortValView::Num(y)) => match (x, y) {
            (None, _) => true,
            (Some(_), None) => false,
            (Some(p), Some(q)) => p <= q,
        },
        (SortValView::Text(_), SortValView::Num(_)) => true,
        (SortValView::Num(_), SortValView::Text(_)) => false,
    }
}

/// `val_le` is a total preorder.
pub proof fn lemma_val_le_total(a: SortValView, b: SortValView)
    ensures
        val_le(a, b) || val_le(b, a),
{
    if let (SortValView::Text(Some(p)), SortValView::Text(Some(q))) = (a, b) {
        lemma_lex_total(p, q, 0);
    }
}

/// `val_le` is transitive.
pub proof fn lemma_val_le_trans(a: SortValView, b: SortValView, c: SortValView)
    requires
        val_le(a, b),
        val_le(b, c),
    ensures
        val_le(a, c),
{
    if let (SortValView::Text(Some(p)), SortValView::Text(Some(q)), SortValView::Text(Some(r))) = (a, b, c) {
        lemma_lex_trans(p, q, r, 0);
    }
}

/// `<=` of two sort values.
pub fn val_le_exec(a: &SortVal, b: &SortVal) -> (r: bool)
    ensures
        r == val_le(val_view(*a), val_view(*b)),
{
    match (a, b) {
        (SortVal::Text(x), SortVal::Text(y)) => match (x, y) {
            (None, _) => true,
            (Some(_), None) => false,
            (Some(p), Some(q)) => lex_le_exec(p, q),
        },
        (SortVal::Num(x), SortVal::Num(y)) => match (x, y) {
            (None, _) => true,
            (Some(_), None) => false,
            (Some(p), Some(q)) => *p <= *q,
        },
        (SortVal::Text(_), SortVal::Num(_)) => true,
        (SortVal::Num(_), SortVal::Text(_)) => false,
    }
}

/// The ghost views of a list of sort values.
pub open spec fn key_views(keys: Seq<SortVal>) -> Seq<SortValView> {
    keys.map_values(|k: SortVal| val_view(k))
}

/// Row `a` may precede row `b` in a list sorted by `keys`, ascending or
/// descending.
pub open spec fn ordered(keys: Seq<SortValView>, desc: bool, a: usize, b: usize) -> bool {
    if desc {
        val_le(keys[b as int], keys[a as int])
    } else {
        val_le(keys[a as int], keys[b as int])
    }
}

/// `out` is the stable sort of `input` by `keys`.
pub open spec fn is_stable_sort(keys: Seq<SortValView>, desc: bool, input: Seq<usize>, out: Seq<usize>) -> bool {
    &&& out.to_multiset() == input.to_multiset()
    &&& sorted_by_keys(keys, desc, out)
    &&& all_below(out, keys.len())
    &&& exists|pos: Seq<int>| stable_arrangement(keys, desc, input, out, pos)
}

/// May row `a` precede row `b`?
pub fn key_ordered(keys: &Vec<SortVal>, desc: bool, a: usize, b: usize) -> (r: bool)
    requires
        a < keys@.len(),
        b < keys@.len(),
    ensures
        r == ordered(key_views(keys@), desc, a, b),
{
    if desc {
        val_le_exec(&keys[b], &keys[a])
    } else {
        val_le_exec(&keys[a], &keys[b])
    }
}

/// Every pair of positions in `s` is in key order.
pub open spec fn sorted_by_keys(keys: Seq<SortValView>, desc: bool, s: Seq<usize>) -> bool {
    forall|i: int, j: int| 0 <= i < j < s.len() ==> ordered(keys, desc, #[trigger] s[i], #[trigger] s[j])
}

/// Every entry of `s` indexes into `keys`.
pub open spec fn all_below(s: Seq<usize>, n: nat) -> bool {
    forall|i: int| 0 <= i < s.len() ==> #[trigger] s[i] < n
}

/// `pos` maps each position of `r` to the position of `idx` it came from,
/// one to one, and rows with equal keys keep their relative order from `idx`.
pub open spec fn stable_arrangement(keys: Seq<SortValView>, desc: bool, idx: Seq<usize>, r: Seq<usize>, pos: Seq<int>) -> bool {
    &&& pos.len() == r.len()
    &&& r.len() == idx.len()
    &&& forall|k: int| 0 <= k < r.len() ==> 0 <= #[trigger] pos[k] < idx.len() && r[k] == idx[pos[k]]
    &&& forall|i: int, j: int| 0 <= i < j < r.len() ==> #[trigger] pos[i] != #[trigger] pos[j]
    &&& forall|i: int, j: int| 0 <= i < j < r.len() && ordered(keys, desc, #[trigger] r[j], #[trigger] r[i]) ==> pos[i] < pos[j]
}

/// `x` inserted into `s` right after the last element it may follow (at the
/// front when it may follow none): one step of a stable insertion sort.
pub open spec fn insert_sorted(keys: Seq<SortValView>, desc: bool, s: Seq<usize>, x: usize) -> Seq<usize>
    decreases s.len(),
{
    if s.len() == 0 || ordered(keys, desc, s.last(), x) {
        s.push(x)
    } else {
        insert_sorted(keys, desc, s.drop_last(), x).push(s.last())
    }
}

/// The stable insertion sort of `idx` by `keys`.
pub open spec fn insertion_sorted(keys: Seq<SortValView>, desc: bool, idx: Seq<usize>) -> Seq<usize>
    decreases idx.len(),
{
    if idx.len() == 0 {
        Seq::empty()
    } else {
        insert_sorted(keys, desc, insertion_sorted(keys, desc, idx.drop_last()), idx.last())
    }
}

proof fn lemma_insert_at(keys: Seq<SortValView>, desc: bool, s: Seq<usize>, x: usize, p: int)
    requires
        0 <= p <= s.len(),
        p == 0 || ordered(keys, desc, s[p - 1], x),
        forall|k: int| p <= k < s.len() ==> !ordered(keys, desc, #[trigger] s[k], x),
    ensures
        insert_sorted(keys, desc, s, x) == s.insert(p, x),
    decreases s.len(),
{
    if s.len() == 0 {
        assert(s.insert(p, x) =~= s.push(x));
    } else if p == s.len() {
        assert(s.insert(p, x) =~= s.push(x));
    } else {
        assert(!ordered(keys, desc, s[s.len() - 1], x));
        let t = s.drop_last();
        assert forall|k: int| p <= k < t.len() implies !ordered(keys, desc, #[trigger] t[k], x) by {
            assert(t[k] == s[k]);
        }
        lemma_insert_at(keys, desc, t, x, p);
        assert(t.insert(p, x).push(s.last()) =~= s.insert(p, x));
    }
}

/// Stable insertion sort of row indices by their keys: the result holds the
/// same indices, in key order (descending when `desc`).
pub fn sort_by_keys(idx: &Vec<usize>, keys: &Vec<SortVal>, desc: bool) -> (r: Vec<usize>)
    requires
        all_below(idx@, keys@.len()),
    ensures
        is_stable_sort(key_views(keys@), desc, idx@, r@),
        r@ == insertion_sorted(key_views(keys@), desc, idx@),
{
    let ghost kv = key_views(keys@);
    let mut out: Vec<usize> = Vec::new();
    let mut n: usize = 0;
    let ghost mut pos: Seq<int> = Seq::empty();
    while n < idx.len()
        invariant
            n <= idx.len(),
            kv == key_views(keys@),
            stable_arrangement(kv, desc, idx@.take(n as int), out@, pos),
            all_below(idx@, keys@.len()),
            all_below(out@, keys@.len()),
            out@.to_multiset() == idx@.take(n as int).to_multiset(),
            sorted_by_keys(kv, desc, out@),
            out@ == insertion_sorted(kv, desc, idx@.take(n as int)),
        decreases idx.len() - n,
    {
        let x = idx[n];
        let mut p: usize = out.len();
        while p > 0 && !key_ordered(keys, desc, out[p - 1], x)
            invariant
                p <= out.len(),
                x < keys@.len(),
                kv == key_views(keys@),
                all_below(out@, keys@.len()),
                forall|k: int| p <= k < out@.len() ==> !ordered(kv, desc, #[trigger] out@[k], x),
            decreases p,
        {
            p = p - 1;
        }
        proof {
            let o = out@;
            assert forall|k: int| 0 <= k < p implies ordered(kv, desc, #[trigger] o[k], x) by {
                assert(ordered(kv, desc, o[p - 1], x));
                if k < p - 1 {
                    assert(ordered(kv, desc, o[k], o[p - 1]));
                    if desc {
                        lemma_val_le_trans(kv[x as int], kv[o[p - 1] as int], kv[o[k] as int]);
                    } else {
                        lemma_val_le_trans(kv[o[k] as int], kv[o[p - 1] as int], kv[x as int]);
                    }
                }
            }
            assert forall|k: int| p <= k < o.len() implies ordered(kv, desc, x, #[trigger] o[k]) by {
                lemma_val_le_total(kv[x as int], kv[o[k] as int]);
            }
        }
        let ghost before = out@;
        let ghost pbefore = pos;
        proof {
            lemma_insert_at(kv, desc, before, x, p as int);
            assert(idx@.take(n + 1).drop_last() =~= idx@.take(n as int));
            assert(idx@.take(n + 1).last() == x);
        }
        out.insert(p, x);
        proof {
            pos = pbefore.insert(p as int, n as int);
            let t = idx@.take(n + 1);
            let o = out@;
            assert forall|k: int| 0 <= k < o.len() implies 0 <= #[trigger] pos[k] < t.len() && o[k] == t[pos[k]] by {
                if k < p {
                    assert(o[k] == before[k] && pos[k] == pbefore[k]);
                } else if k > p {
                    assert(o[k] == before[k - 1] && pos[k] == pbefore[k - 1]);
                }
            }
            assert forall|i: int, j: int| 0 <= i < j < o.len() implies #[trigger] pos[i] != #[trigger] pos[j] by {
                if i < p && j < p {
                } else if i < p && j == p {
                } else if i < p {
                    assert(pos[j] == pbefore[j - 1]);
                } else if i == p {
                    assert(pos[j] == pbefore[j - 1]);
                } else {
                    assert(pos[i] == pbefore[i - 1] && pos[j] == pbefore[j - 1]);
                }
            }
            assert forall|i: int, j: int| 0 <= i < j < o.len() && ordered(kv, desc, #[trigger] o[j], #[trigger] o[i]) implies pos[i] < pos[j] by {
                if i < p && j == p {
                    assert(pos[i] == pbefore[i]);
                } else if i == p && j > p {
                    assert(o[j] == before[j - 1]);
                    assert(false);
                } else if j < p {
                    assert(o[i] == before[i] && o[j] == before[j]);
                    assert(pos[i] == pbefore[i] && pos[j] == pbefore[j]);
                } else if i < p {
                    assert(o[i] == before[i] && o[j] == before[j - 1]);
                    assert(pos[i] == pbefore[i] && pos[j] == pbefore[j - 1]);
                } else {
                    assert(o[i] == before[i - 1] && o[j] == before[j - 1]);
                    assert(pos[i] == pbefore[i - 1] && pos[j] == pbefore[j - 1]);
                }
            }
        }
        proof {
            vstd::seq_lib::to_multiset_insert(before, p as int, x);
            assert(idx@.take(n + 1) =~= idx@.take(n as int).push(x));
            let o = out@;
            assert forall|i: int, j: int| 0 <= i < j < o.len() implies ordered(kv, desc, #[trigger] o[i], #[trigger] o[j]) by {
                if i < p && j == p {
                } else if i == p && j > p {
                    assert(o[j] == before[j - 1]);
                } else if j < p {
                    assert(o[i] == before[i] && o[j] == before[j]);
                } else if i < p {
                    assert(o[i] == before[i] && o[j] == before[j - 1]);
                } else {
                    assert(o[i] == before[i - 1] && o[j] == before[j - 1]);
                }
            }
        }
        n = n + 1;
    }
    assert(idx@.take(idx@.len() as int) =~= idx@);
    assert(stable_arrangement(kv, desc, idx@, out@, pos));
    out
}

/// Inserting keeps every element and adds `x`.
pub proof fn lemma_insert_sorted_elements(keys: Seq<SortValView>, desc: bool, s: Seq<usize>, x: usize)
    ensures
        insert_sorted(keys, desc, s, x).len() == s.len() + 1,
        forall|y: usize| #[trigger] insert_sorted(keys, desc, s, x).contains(y) <==> (s.contains(y) || y == x),
        s.no_duplicates() && !s.contains(x) ==> insert_sorted(keys, desc, s, x).no_duplicates(),
    decreases s.len(),
{
    let r = insert_sorted(keys, desc, s, x);
    if s.len() == 0 || ordered(keys, desc, s.last(), x) {
        assert forall|y: usize| #[trigger] r.contains(y) <==> (s.contains(y) || y == x) by {
            if r.contains(y) {
                let j = choose|j: int| 0 <= j < r.len() && r[j] == y;
                if j < s.len() {
                    assert(s[j] == y);
                }
            }
            if s.contains(y) {
                let j = choose|j: int| 0 <= j < s.len() && s[j] == y;
                assert(r[j] == y);
            }
            if y == x {
                assert(r[s.len() as int] == y);
            }
        }
        if s.no_duplicates() && !s.contains(x) {
            assert forall|i: int, j: int| 0 <= i < r.len() && 0 <= j < r.len() && i != j implies r[i] != r[j] by {
                if i < s.len() && j < s.len() {
                } else if i < s.len() {
                    assert(s.contains(r[i]));
                } else {
                    assert(s.contains(r[j]));
                }
            }
        }
    } else {
        let t = s.drop_last();
        let l = s.last();
        lemma_insert_sorted_elements(keys, desc, t, x);
        let rt = insert_sorted(keys, desc, t, x);
        assert(r == rt.push(l));
        assert forall|y: usize| #[trigger] r.contains(y) <==> (s.contains(y) || y == x) by {
            if r.contains(y) {
                let j = choose|j: int| 0 <= j < r.len() && r[j] == y;
                if j < rt.len() {
                    assert(rt.contains(y));
                    if t.contains(y) {
                        let q = choose|q: int| 0 <= q < t.len() && t[q] == y;
                        assert(s[q] == y);
                    }
                } else {
                    assert(s[s.len() - 1] == y);
                }
            }
            if s.contains(y) {
                let j = choose|j: int| 0 <= j < s.len() && s[j] == y;
                if j < t.len() {
                    assert(t[j] == y);
                    assert(rt.contains(y));
                    let q = choose|q: int| 0 <= q < rt.len() && rt[q] == y;
                    assert(r[q] == y);
                } else {
                    assert(r[rt.len() as int] == y);
                }
            }
            if y == x {
                assert(rt.contains(y));
                let q = choose|q: int| 0 <= q < rt.len() && rt[q] == y;
                assert(r[q] == y);
            }
        }
        if s.no_duplicates() && !s.contains(x) {
            assert(t.no_duplicates()) by {
                assert forall|i: int, j: int| 0 <= i < t.len() && 0 <= j < t.len() && i != j implies t[i] != t[j] by {
                    assert(t[i] == s[i] && t[j] == s[j]);
                }
            }
            assert(!t.contains(x)) by {
                if t.contains(x) {
                    let q = choose|q: int| 0 <= q < t.len() && t[q] == x;
                    assert(s[q] == x);
                }
            }
            assert(!rt.contains(l)) by {
                if rt.contains(l) {
                    if t.contains(l) {
                        let q = choose|q: int| 0 <= q < t.len() && t[q] == l;
                        assert(s[q] == s[s.len() - 1]);
                    } else {
                        assert(s[s.len() - 1] == x);
                    }
                }
            }
            assert forall|i: int, j: int| 0 <= i < r.len() && 0 <= j < r.len() && i != j implies r[i] != r[j] by {
                if i < rt.len() && j < rt.len() {
                } else if i < rt.len() {
                    assert(rt.contains(r[i]));
                } else {
                    assert(rt.contains(r[j]));
                }
            }
        }
    }
}

/// Sorting keeps exactly the elements of the input, as many of them, and
/// an input without repeats gives an output without repeats.
pub proof fn lemma_insertion_sorted_elements(keys: Seq<SortValView>, desc: bool, idx: Seq<usize>)
    ensures
        insertion_sorted(keys, desc, idx).len() == idx.len(),
        forall|y: usize| #[trigger] insertion_sorted(keys, desc, idx).contains(y) <==> idx.contains(y),
        idx.no_duplicates() ==> insertion_sorted(keys, desc, idx).no_duplicates(),
    decreases idx.len(),
{
    if idx.len() > 0 {
        let t = idx.drop_last();
        let x = idx.last();
        lemma_insertion_sorted_elements(keys, desc, t);
        let st = insertion_sorted(keys, desc, t);
        lemma_insert_sorted_elements(keys, desc, st, x);
        assert forall|y: usize| #[trigger] insertion_sorted(keys, desc, idx).contains(y) <==> idx.contains(y) by {
            if idx.contains(y) {
                let j = choose|j: int| 0 <= j < idx.len() && idx[j] == y;
                if j < t.len() {
                    assert(t[j] == y);
                }
            }
            if t.contains(y) {
                let j = choose|j: int| 0 <= j < t.len() && t[j] == y;
                assert(idx[j] == y);
            }
        }
        if idx.no_duplicates() {
            assert(t.no_duplicates()) by {
                assert forall|i: int, j: int| 0 <= i < t.len() && 0 <= j < t.len() && i != j implies t[i] != t[j] by {
                    assert(t[i] == idx[i] && t[j] == idx[j]);
                }
            }
            assert(!st.contains(x)) by {
                if st.contains(x) {
                    assert(t.contains(x));
                    let q = choose|q: int| 0 <= q < t.len() && t[q] == x;
                    assert(idx[q] == idx[idx.len() - 1]);
                }
            }
        }
    }
}

/// Inserting into a sorted list keeps it sorted.
pub proof fn lemma_insert_sorted_sorted(keys: Seq<SortValView>, desc: bool, s: Seq<usize>, x: usize)
    requires
        sorted_by_keys(keys, desc, s),
    ensures
        sorted_by_keys(keys, desc, insert_sorted(keys, desc, s, x)),
    decreases s.len(),
{
    let r = insert_sorted(keys, desc, s, x);
    if s.len() == 0 || ordered(keys, desc, s.last(), x) {
        assert forall|i: int, j: int| 0 <= i < j < r.len() implies ordered(keys, desc, #[trigger] r[i], #[trigger] r[j]) by {
            if j == s.len() {
                assert(r[j] == x && r[i] == s[i]);
                if i < s.len() - 1 {
                    assert(ordered(keys, desc, s[i], s[s.len() - 1]));
                    if desc {
                        lemma_val_le_trans(keys[x as int], keys[s.last() as int], keys[s[i] as int]);
                    } else {
                        lemma_val_le_trans(keys[s[i] as int], keys[s.last() as int], keys[x as int]);
                    }
                }
            } else {
                assert(r[i] == s[i] && r[j] == s[j]);
            }
        }
    } else {
        let t = s.drop_last();
        let l = s.last();
        assert(sorted_by_keys(keys, desc, t)) by {
            assert forall|i: int, j: int| 0 <= i < j < t.len() implies ordered(keys, desc, #[trigger] t[i], #[trigger] t[j]) by {
                assert(t[i] == s[i] && t[j] == s[j]);
            }
        }
        lemma_insert_sorted_sorted(keys, desc, t, x);
        lemma_insert_sorted_elements(keys, desc, t, x);
        let rt = insert_sorted(keys, desc, t, x);
        assert(r == rt.push(l));
        assert forall|i: int, j: int| 0 <= i < j < r.len() implies ordered(keys, desc, #[trigger] r[i], #[trigger] r[j]) by {
            if j == rt.len() {
                let y = rt[i];
                assert(r[i] == y && r[j] == l);
                assert(rt.contains(y));
                if t.contains(y) {
                    let q = choose|q: int| 0 <= q < t.len() && t[q] == y;
                    assert(s[q] == y);
                    assert(ordered(keys, desc, s[q], s[s.len() - 1]));
                } else {
                    assert(y == x);
                    if desc {
                        lemma_val_le_total(keys[x as int], keys[l as int]);
                    } else {
                        lemma_val_le_total(keys[l as int], keys[x as int]);
                    }
                }
            } else {
                assert(r[i] == rt[i] && r[j] == rt[j]);
            }
        }
    }
}

/// The insertion sort's output is in key order.
pub proof fn lemma_insertion_sorted_sorted(keys: Seq<SortValView>, desc: bool, idx: Seq<usize>)
    ensures
        sorted_by_keys(keys, desc, insertion_sorted(keys, desc, idx)),
    decreases idx.len(),
{
    if idx.len() > 0 {
        lemma_insertion_sorted_sorted(keys, desc, idx.drop_last());
        lemma_insert_sorted_sorted(keys, desc, insertion_sorted(keys, desc, idx.drop_last()), idx.last());
    }
}

} // verus!
