//! The deterministic order of container members: a stable sort of member
//! indices by name, under the lexicographic order on names.

use vstd::prelude::*;
use crate::text::str_lt;

verus! {

/// Strict order is asymmetric: at most one of `a < b`, `b < a` holds.
pub proof fn lemma_str_lt_asym(a: Seq<char>, b: Seq<char>)
    requires
        str_lt(a, b),
    ensures
        !str_lt(b, a),
    decreases a.len(),
{
    if b.len() == 0 {
    } else if a.len() == 0 {
    } else if (a[0] as int) < (b[0] as int) {
    } else if (b[0] as int) < (a[0] as int) {
    } else {
        lemma_str_lt_asym(a.drop_first(), b.drop_first());
    }
}

/// Index `x` inserted into the already sorted index sequence `s`: it
/// stands before the first index whose name is strictly greater than its
/// own, and so after every index with an equal or smaller name.
pub open spec fn insert_idx(x: usize, s: Seq<usize>, names: Seq<Seq<char>>) -> Seq<usize>
    decreases s.len(),
{
    if s.len() == 0 {
        seq![x]
    } else if str_lt(names[x as int], names[s[0] as int]) {
        seq![x] + s
    } else {
        seq![s[0]] + insert_idx(x, s.drop_first(), names)
    }
}

/// The indices `0 .. k`, sorted by the names they select: each inserted in
/// turn, a later index after every earlier one with an equal name — a
/// stable sort.
pub open spec fn sorted_prefix(names: Seq<Seq<char>>, k: nat) -> Seq<usize>
    decreases k,
{
    if k == 0 {
        Seq::<usize>::empty()
    } else {
        insert_idx((k - 1) as usize, sorted_prefix(names, (k - 1) as nat), names)
    }
}

/// The order in which members with the given names are rendered: all their
/// indices, stably sorted by name.
pub open spec fn sort_indices(names: Seq<Seq<char>>) -> Seq<usize> {
    sorted_prefix(names, names.len())
}

proof fn lemma_insert_idx_props(x: usize, s: Seq<usize>, names: Seq<Seq<char>>)
    ensures
        insert_idx(x, s, names).len() == s.len() + 1,
        forall|j: int|
            0 <= j < insert_idx(x, s, names).len() ==> #[trigger] insert_idx(x, s, names)[j] == x
                || s.contains(insert_idx(x, s, names)[j]),
    decreases s.len(),
{
    let r = insert_idx(x, s, names);
    if s.len() == 0 {
    } else if str_lt(names[x as int], names[s[0] as int]) {
        assert forall|j: int| 0 <= j < r.len() implies #[trigger] r[j] == x || s.contains(r[j]) by {
            if j > 0 {
                assert(r[j] == s[j - 1]);
            }
        }
    } else {
        lemma_insert_idx_props(x, s.drop_first(), names);
        let r1 = insert_idx(x, s.drop_first(), names);
        assert forall|j: int| 0 <= j < r.len() implies #[trigger] r[j] == x || s.contains(r[j]) by {
            if j == 0 {
                assert(r[j] == s[0]);
            } else {
                assert(r[j] == r1[j - 1]);
                if r1[j - 1] != x {
                    let j0 = choose|j0: int|
                        0 <= j0 < s.drop_first().len() && s.drop_first()[j0] == r1[j - 1];
                    assert(s[j0 + 1] == r1[j - 1]);
                }
            }
        }
    }
}

/// The sorted order of the first `k` indices has length `k`, and every
/// entry of it is an index below `k`.
pub proof fn lemma_sorted_prefix_props(names: Seq<Seq<char>>, k: nat)
    requires
        k <= usize::MAX,
    ensures
        sorted_prefix(names, k).len() == k,
        forall|j: int| 0 <= j < k ==> (#[trigger] sorted_prefix(names, k)[j] as int) < k,
    decreases k,
{
    if k > 0 {
        let prev = sorted_prefix(names, (k - 1) as nat);
        lemma_sorted_prefix_props(names, (k - 1) as nat);
        lemma_insert_idx_props((k - 1) as usize, prev, names);
        let r = sorted_prefix(names, k);
        assert forall|j: int| 0 <= j < k implies (#[trigger] r[j] as int) < k by {
            if r[j] != (k - 1) as usize {
                assert(prev.contains(r[j]));
                let j0 = choose|j0: int| 0 <= j0 < prev.len() && prev[j0] == r[j];
            }
        }
    }
}

/// The whole sorted order: one entry for each name, every entry in bounds.
pub proof fn lemma_sort_indices_bounds(names: Seq<Seq<char>>)
    requires
        names.len() <= usize::MAX,
    ensures
        sort_indices(names).len() == names.len(),
        forall|j: int|
            0 <= j < names.len() ==> (#[trigger] sort_indices(names)[j] as int) < names.len(),
{
    lemma_sorted_prefix_props(names, names.len());
}

proof fn lemma_insert_idx_at_end(x: usize, s: Seq<usize>, names: Seq<Seq<char>>)
    requires
        forall|j: int|
            0 <= j < s.len() ==> !str_lt(names[x as int], names[#[trigger] s[j] as int]),
    ensures
        insert_idx(x, s, names) == s + seq![x],
    decreases s.len(),
{
    if s.len() == 0 {
        assert(insert_idx(x, s, names) =~= s + seq![x]);
    } else {
        assert(!str_lt(names[x as int], names[s[0] as int]));
        assert forall|j: int|
            0 <= j < s.drop_first().len() implies !str_lt(
            names[x as int],
            names[#[trigger] s.drop_first()[j] as int],
        ) by {
            assert(s.drop_first()[j] == s[j + 1]);
        }
        lemma_insert_idx_at_end(x, s.drop_first(), names);
        assert(seq![s[0]] + (s.drop_first() + seq![x]) =~= s + seq![x]);
    }
}

/// With names in strictly descending order, the sorted order of the first
/// `k` indices is exactly `k-1, k-2, .., 0`.
proof fn lemma_sorted_prefix_desc(names: Seq<Seq<char>>, k: nat)
    requires
        k <= names.len(),
        names.len() <= usize::MAX,
        forall|i: int, j: int|
            0 <= i < j < names.len() ==> #[trigger] str_lt(names[j], names[i]),
    ensures
        sorted_prefix(names, k) == Seq::new(k, |t: int| (k - 1 - t) as usize),
    decreases k,
{
    if k == 0 {
        assert(sorted_prefix(names, k) =~= Seq::new(k, |t: int| (k - 1 - t) as usize));
    } else {
        lemma_sorted_prefix_desc(names, (k - 1) as nat);
        let prev = sorted_prefix(names, (k - 1) as nat);
        if k == 1 {
            assert(sorted_prefix(names, k) =~= Seq::new(k, |t: int| (k - 1 - t) as usize));
        } else {
            assert(prev[0] == (k - 2) as usize);
            assert(str_lt(names[k - 1], names[k - 2]));
            assert(insert_idx((k - 1) as usize, prev, names) == seq![(k - 1) as usize] + prev);
            assert(sorted_prefix(names, k) =~= Seq::new(k, |t: int| (k - 1 - t) as usize));
        }
    }
}

/// Descending input: the render order reverses it, smallest name first.
pub proof fn lemma_sort_indices_desc(names: Seq<Seq<char>>)
    requires
        names.len() <= usize::MAX,
        forall|i: int, j: int|
            0 <= i < j < names.len() ==> #[trigger] str_lt(names[j], names[i]),
    ensures
        sort_indices(names) == Seq::new(names.len(), |t: int| (names.len() - 1 - t) as usize),
{
    lemma_sorted_prefix_desc(names, names.len());
}

/// With names in strictly ascending order, the sorted order of the first
/// `k` indices is exactly `0, 1, .., k-1`.
proof fn lemma_sorted_prefix_asc(names: Seq<Seq<char>>, k: nat)
    requires
        k <= names.len(),
        names.len() <= usize::MAX,
        forall|i: int, j: int|
            0 <= i < j < names.len() ==> #[trigger] str_lt(names[i], names[j]),
    ensures
        sorted_prefix(names, k) == Seq::new(k, |t: int| t as usize),
    decreases k,
{
    if k == 0 {
        assert(sorted_prefix(names, k) =~= Seq::new(k, |t: int| t as usize));
    } else {
        lemma_sorted_prefix_asc(names, (k - 1) as nat);
        let prev = sorted_prefix(names, (k - 1) as nat);
        assert forall|j: int|
            0 <= j < prev.len() implies !str_lt(
            names[(k - 1) as usize as int],
            names[#[trigger] prev[j] as int],
        ) by {
            assert(prev[j] == j as usize);
            assert(str_lt(names[j], names[k - 1]));
            lemma_str_lt_asym(names[j], names[k - 1]);
        }
        lemma_insert_idx_at_end((k - 1) as usize, prev, names);
        assert(sorted_prefix(names, k) =~= Seq::new(k, |t: int| t as usize));
    }
}

/// Ascending input: the render order keeps it as it stands.
pub proof fn lemma_sort_indices_asc(names: Seq<Seq<char>>)
    requires
        names.len() <= usize::MAX,
        forall|i: int, j: int|
            0 <= i < j < names.len() ==> #[trigger] str_lt(names[i], names[j]),
    ensures
        sort_indices(names) == Seq::new(names.len(), |t: int| t as usize),
{
    lemma_sorted_prefix_asc(names, names.len());
}

} // verus!
