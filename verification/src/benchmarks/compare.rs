//! Head-to-head comparison helpers.

use vstd::prelude::*;
use crate::sorting::{SortVal, SortValView, sort_by_keys, is_stable_sort, key_views, val_view, all_below, insertion_sorted};
use crate::text::{
    chars_of, char_display_width, display_width, owned, prefix_width, str_width,
    string_from_chars, lemma_prefix_width_monotone,
};

verus! {

/// `k` is where a greedy left-to-right fill of `s` into `max` columns stops:
/// the first `k` characters fit, and either all characters fit or the next one
/// would overflow.
pub open spec fn greedy_fit(s: Seq<char>, max: nat, k: nat) -> bool {
    &&& k <= s.len()
    &&& prefix_width(s, k) <= max
    &&& (k == s.len() || prefix_width(s, k + 1) > max)
}

/// Columns a label may use inside a `width`-column label cell (one trailing
/// column stays blank).
pub open spec fn label_room(width: nat) -> nat {
    if width == 0 { 0 } else { (width - 1) as nat }
}

/// The greedy stopping point is unique: prefix widths never shrink.
pub proof fn lemma_greedy_fit_unique(s: Seq<char>, max: nat, k1: nat, k2: nat)
    requires
        greedy_fit(s, max, k1),
        greedy_fit(s, max, k2),
    ensures
        k1 == k2,
{
    if k1 < k2 {
        lemma_prefix_width_monotone(s, k1 + 1, k2);
    } else if k2 < k1 {
        lemma_prefix_width_monotone(s, k2 + 1, k1);
    }
}

/// Truncate a metric label to fit the head-to-head label column
/// (unicode-aware). A label whose display width fits `width - 1` columns is
/// kept whole; otherwise its longest prefix that fits, measured character by
/// character, is kept.
pub fn truncate_label(label: &str, width: usize) -> (r: String)
    ensures
        str_width(label@) <= label_room(width as nat) ==> r@ == label@,
        str_width(label@) > label_room(width as nat) ==> {
            &&& r@ == label@.take(r@.len() as int)
            &&& greedy_fit(label@, label_room(width as nat), r@.len())
        },
{
    let max: usize = if width == 0 { 0 } else { width - 1 };
    if display_width(label) <= max {
        return owned(label);
    }
    let v = chars_of(label);
    let mut out: Vec<char> = Vec::new();
    let mut w: usize = 0;
    let mut i: usize = 0;
    while i < v.len()
        invariant
            i <= v.len(),
            v@ == label@,
            max == label_room(width as nat),
            out@ == v@.take(i as int),
            w == prefix_width(v@, i as nat),
            w <= max,
        ensures
            i <= v.len(),
            out@ == v@.take(i as int),
            greedy_fit(v@, max as nat, i as nat),
        decreases v.len() - i,
    {
        let cw = char_display_width(v[i]);
        assert(v@.subrange(i as int, i + 1) =~= seq![v@[i as int]]);
        if cw > max - w {
            assert(prefix_width(v@, (i + 1) as nat) == w + cw);
            break;
        }
        out.push(v[i]);
        w = w + cw;
        i = i + 1;
        assert(out@ =~= v@.take(i as int));
    }
    let r = string_from_chars(&out);
    r
}


/// Indices (ascending) of the present values among the first `n`.
pub open spec fn present_upto(values: Seq<Option<i64>>, n: nat) -> Seq<usize>
    decreases n,
{
    if n == 0 || n > values.len() {
        Seq::empty()
    } else {
        let acc = present_upto(values, (n - 1) as nat);
        if values[n - 1] is Some { acc.push((n - 1) as usize) } else { acc }
    }
}

/// The values as sort keys.
pub open spec fn value_views(values: Seq<Option<i64>>) -> Seq<SortValView> {
    Seq::new(values.len(), |i: int| SortValView::Num(values[i]))
}

/// `ranks` gives each present value its 1-based position in the stable
/// ordering of the present values, best first (highest first when higher is
/// better, lowest first otherwise); missing values get no rank.
pub open spec fn ranks_of(values: Seq<Option<i64>>, higher_is_better: bool, ranks: Seq<Option<u32>>) -> bool {
    let present = present_upto(values, values.len());
    let order = insertion_sorted(value_views(values), higher_is_better, present);
    &&& ranks.len() == values.len()
    &&& forall|i: int| 0 <= i < values.len() ==> (values[i] is None <==> #[trigger] ranks[i] is None)
    &&& is_stable_sort(value_views(values), higher_is_better, present, order)
    &&& forall|k: int| 0 <= k < order.len() ==> ranks[#[trigger] order[k] as int] == Some((k + 1) as u32)
}

/// Rank values: 1 = best, `None` for missing data. Equal values are ranked
/// in their input order.
pub fn rank_values(values: &Vec<Option<i64>>, higher_is_better: bool) -> (r: Vec<Option<u32>>)
    requires
        values@.len() < u32::MAX,
    ensures
        ranks_of(values@, higher_is_better, r@),
{
    let mut keys: Vec<SortVal> = Vec::new();
    let mut present: Vec<usize> = Vec::new();
    let mut i: usize = 0;
    while i < values.len()
        invariant
            i <= values.len(),
            keys@.len() == i,
            forall|j: int| 0 <= j < i ==> val_view(#[trigger] keys@[j]) == SortValView::Num(values@[j]),
            present@ == present_upto(values@, i as nat),
            all_below(present@, i as nat),
        decreases values.len() - i,
    {
        keys.push(SortVal::Num(values[i]));
        if values[i].is_some() {
            present.push(i);
        }
        i = i + 1;
    }
    assert(key_views(keys@) =~= value_views(values@));
    let order = sort_by_keys(&present, &keys, higher_is_better);
    let mut ranks: Vec<Option<u32>> = Vec::new();
    let mut j: usize = 0;
    while j < values.len()
        invariant
            j <= values.len(),
            ranks@.len() == j,
            forall|k: int| 0 <= k < j ==> #[trigger] ranks@[k] is None,
        decreases values.len() - j,
    {
        ranks.push(None);
        j = j + 1;
    }
    let ghost pres = present_upto(values@, values@.len());
    proof {
        lemma_present_valid(values@, values@.len());
        vstd::seq_lib::to_multiset_len(order@);
        vstd::seq_lib::to_multiset_len(pres);
        assert forall|a: int, b: int| 0 <= a < b < pres.len() implies pres[a] != pres[b] by {
            assert(pres[a] < pres[b]);
        }
        assert(pres.no_duplicates());
    }
    let mut k: usize = 0;
    while k < order.len()
        invariant
            k <= order.len(),
            ranks@.len() == values@.len(),
            order@.len() < u32::MAX,
            is_stable_sort(value_views(values@), higher_is_better, pres, order@),
            pres.no_duplicates(),
            forall|m: int| 0 <= m < pres.len() ==> #[trigger] values@[pres[m] as int] is Some && pres[m] < values@.len(),
            forall|m: int| 0 <= m < k ==> ranks@[#[trigger] order@[m] as int] == Some((m + 1) as u32),
            forall|x: int| 0 <= x < values@.len() ==> (#[trigger] ranks@[x] is Some ==> values@[x] is Some),
        decreases order.len() - k,
    {
        let p = order[k];
        proof {
            lemma_order_member(value_views(values@), higher_is_better, pres, order@, k as int);
        }
        ranks.set(p, Some((k + 1) as u32));
        proof {
            assert forall|m: int| 0 <= m < k + 1 implies ranks@[#[trigger] order@[m] as int] == Some((m + 1) as u32) by {
                if m < k {
                    lemma_order_distinct(value_views(values@), higher_is_better, pres, order@, m, k as int);
                }
            }
        }
        k = k + 1;
    }
    proof {
        assert forall|x: int| 0 <= x < values@.len() implies (values@[x] is None <==> #[trigger] ranks@[x] is None) by {
            if values@[x] is Some {
                lemma_present_has(values@, values@.len(), x);
                let m = choose|m: int| 0 <= m < pres.len() && pres[m] == x;
                lemma_in_order(value_views(values@), higher_is_better, pres, order@, m);
            }
        }
    }
    ranks
}

/// Present indices are increasing, in range, and name present values.
pub proof fn lemma_present_valid(values: Seq<Option<i64>>, n: nat)
    requires
        n <= values.len(),
        values.len() <= usize::MAX,
    ensures
        present_upto(values, n).len() <= n,
        forall|m: int| 0 <= m < present_upto(values, n).len() ==> #[trigger] values[present_upto(values, n)[m] as int] is Some
            && present_upto(values, n)[m] < n,
        forall|a: int, b: int| 0 <= a < b < present_upto(values, n).len() ==> #[trigger] present_upto(values, n)[a] < #[trigger] present_upto(values, n)[b],
    decreases n,
{
    if n > 0 {
        lemma_present_valid(values, (n - 1) as nat);
        let acc = present_upto(values, (n - 1) as nat);
        let cur = present_upto(values, n);
        assert forall|m: int| 0 <= m < cur.len() implies #[trigger] values[cur[m] as int] is Some && cur[m] < n by {
            if m < acc.len() {
                assert(cur[m] == acc[m]);
            } else {
                assert(cur[m] == (n - 1) as usize);
            }
        }
        assert forall|a: int, b: int| 0 <= a < b < cur.len() implies #[trigger] cur[a] < #[trigger] cur[b] by {
            if b < acc.len() {
                assert(cur[a] == acc[a] && cur[b] == acc[b]);
            } else {
                assert(cur[a] == acc[a]);
                assert(values[acc[a] as int] is Some && acc[a] < n - 1);
                assert(cur[b] == (n - 1) as usize);
            }
        }
    }
}

/// Every present value's index is among the present indices.
pub proof fn lemma_present_has(values: Seq<Option<i64>>, n: nat, x: int)
    requires
        n <= values.len(),
        values.len() <= usize::MAX,
        0 <= x < n,
        values[x] is Some,
    ensures
        exists|m: int| 0 <= m < present_upto(values, n).len() && present_upto(values, n)[m] == x,
    decreases n,
{
    if x < n - 1 {
        lemma_present_has(values, (n - 1) as nat, x);
        let acc = present_upto(values, (n - 1) as nat);
        let m = choose|m: int| 0 <= m < acc.len() && acc[m] == x;
        assert(present_upto(values, n)[m] == x);
    } else {
        let acc = present_upto(values, (n - 1) as nat);
        assert(present_upto(values, n) == acc.push((n - 1) as usize));
        assert(present_upto(values, n)[acc.len() as int] == x);
    }
}

/// Each sorted entry is one of the input entries.
pub proof fn lemma_order_member(kv: Seq<SortValView>, desc: bool, input: Seq<usize>, out: Seq<usize>, k: int)
    requires
        is_stable_sort(kv, desc, input, out),
        0 <= k < out.len(),
    ensures
        exists|m: int| 0 <= m < input.len() && input[m] == out[k],
{
    let pos = choose|pos: Seq<int>| crate::sorting::stable_arrangement(kv, desc, input, out, pos);
    assert(input[pos[k]] == out[k]);
}

/// Sorted entries of a list without repeats are distinct.
pub proof fn lemma_order_distinct(kv: Seq<SortValView>, desc: bool, input: Seq<usize>, out: Seq<usize>, a: int, b: int)
    requires
        is_stable_sort(kv, desc, input, out),
        input.no_duplicates(),
        0 <= a < b < out.len(),
    ensures
        out[a] != out[b],
{
    let pos = choose|pos: Seq<int>| crate::sorting::stable_arrangement(kv, desc, input, out, pos);
    assert(out[a] == input[pos[a]]);
    assert(out[b] == input[pos[b]]);
}

/// Every input entry appears in the sorted list.
pub proof fn lemma_in_order(kv: Seq<SortValView>, desc: bool, input: Seq<usize>, out: Seq<usize>, m: int)
    requires
        is_stable_sort(kv, desc, input, out),
        0 <= m < input.len(),
    ensures
        exists|k: int| 0 <= k < out.len() && out[k] == input[m],
{
    broadcast use vstd::seq_lib::group_to_multiset_ensures;
    assert(input.to_multiset().count(input[m]) > 0);
    assert(out.to_multiset().count(input[m]) > 0);
}

} // verus!
