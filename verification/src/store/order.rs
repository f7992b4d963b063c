use vstd::prelude::*;

verus! {

/// Byte-wise lexicographic comparison of `a` and `b` from position `i` on:
/// the order of `[u8]`, and so of file names on Unix.
pub open spec fn lex_le_from(a: Seq<u8>, b: Seq<u8>, i: nat) -> bool
    decreases a.len() - i,
{
    if i >= a.len() {
        true
    } else if i >= b.len() {
        false
    } else if a[i as int] < b[i as int] {
        true
    } else if a[i as int] > b[i as int] {
        false
    } else {
        lex_le_from(a, b, i + 1)
    }
}

/// `a` sorts before `b` or equals it.
pub open spec fn lex_le(a: Seq<u8>, b: Seq<u8>) -> bool {
    lex_le_from(a, b, 0)
}

pub proof fn lemma_lex_reflexive(a: Seq<u8>, i: nat)
    ensures
        lex_le_from(a, a, i),
    decreases a.len() - i,
{
    if i < a.len() {
        lemma_lex_reflexive(a, i + 1);
    }
}

pub proof fn lemma_lex_total(a: Seq<u8>, b: Seq<u8>, i: nat)
    ensures
        lex_le_from(a, b, i) || lex_le_from(b, a, i),
    decreases a.len() - i,
{
    if i < a.len() && i < b.len() && a[i as int] == b[i as int] {
        lemma_lex_total(a, b, i + 1);
    }
}

pub proof fn lemma_lex_transitive(a: Seq<u8>, b: Seq<u8>, c: Seq<u8>, i: nat)
    requires
        lex_le_from(a, b, i),
        lex_le_from(b, c, i),
    ensures
        lex_le_from(a, c, i),
    decreases a.len() - i,
{
    if i < a.len() && i < b.len() && i < c.len() && a[i as int] == b[i as int] && b[i as int]
        == c[i as int] {
        lemma_lex_transitive(a, b, c, i + 1);
    }
}

pub proof fn lemma_lex_antisymmetric(a: Seq<u8>, b: Seq<u8>, i: nat)
    requires
        lex_le_from(a, b, i),
        lex_le_from(b, a, i),
        i <= a.len(),
        i <= b.len(),
    ensures
        a.len() == b.len(),
        forall|j: int| i <= j < a.len() ==> a[j] == b[j],
    decreases a.len() - i,
{
    if i < a.len() {
        lemma_lex_antisymmetric(a, b, i + 1);
    }
}

/// Two names that sort each before the other are the same name.
pub proof fn lemma_lex_equal(a: Seq<u8>, b: Seq<u8>)
    requires
        lex_le(a, b),
        lex_le(b, a),
    ensures
        a == b,
{
    lemma_lex_antisymmetric(a, b, 0);
    assert(a =~= b);
}

/// Compares two names byte by byte.
pub fn name_le(a: &Vec<u8>, b: &Vec<u8>) -> (r: bool)
    ensures
        r == lex_le(a@, b@),
{
    let mut i: usize = 0;
    while i < a.len() && i < b.len() && a[i] == b[i]
        invariant
            0 <= i <= a@.len(),
            i <= b@.len(),
            lex_le(a@, b@) == lex_le_from(a@, b@, i as nat),
        decreases a@.len() - i,
    {
        i = i + 1;
    }
    if i == a.len() {
        true
    } else if i == b.len() {
        false
    } else {
        a[i] < b[i]
    }
}

/// `order` lists the positions `0 .. n` each once.
pub open spec fn is_permutation(order: Seq<usize>, n: nat) -> bool {
    &&& order.len() == n
    &&& order.no_duplicates()
    &&& forall|i: int| 0 <= i < order.len() ==> #[trigger] order[i] < n
}

/// Taking the names in `order` gives them sorted by bytes.
pub open spec fn sorted_by_name(names: Seq<Seq<u8>>, order: Seq<usize>) -> bool {
    forall|i: int, j: int|
        0 <= i < j < order.len() ==> lex_le(
            #[trigger] names[order[i] as int],
            #[trigger] names[order[j] as int],
        )
}

/// Equal names keep the relative order that they had in the input.
pub open spec fn keeps_ties(names: Seq<Seq<u8>>, order: Seq<usize>) -> bool {
    forall|i: int, j: int|
        0 <= i < j < order.len() && names[order[i] as int] == names[order[j] as int] ==> #[trigger] order[i]
            < #[trigger] order[j]
}

/// The byte strings of a list of names.
pub open spec fn name_bytes(names: Seq<Vec<u8>>) -> Seq<Seq<u8>> {
    names.map_values(|v: Vec<u8>| v@)
}

/// The order in which a stable sort by name (as `sort_by` on file names does)
/// puts the given names: the result lists each position once, the names it
/// points to are sorted bytewise, and equal names keep their relative order.
/// These three facts determine the result (`lemma_sorted_order_unique`).
pub fn sorted_order(names: &Vec<Vec<u8>>) -> (order: Vec<usize>)
    ensures
        is_permutation(order@, names@.len()),
        sorted_by_name(name_bytes(names@), order@),
        keeps_ties(name_bytes(names@), order@),
{
    let ghost ns = name_bytes(names@);
    let mut order: Vec<usize> = Vec::new();
    let mut k: usize = 0;
    while k < names.len()
        invariant
            0 <= k <= names@.len(),
            ns == name_bytes(names@),
            ns.len() == names@.len(),
            is_permutation(order@, k as nat),
            sorted_by_name(ns, order@),
            keeps_ties(ns, order@),
        decreases names@.len() - k,
    {
        let mut pos: usize = order.len();
        while pos > 0 && !name_le(&names[order[pos - 1]], &names[k])
            invariant
                0 <= pos <= order@.len(),
                k < names@.len(),
                ns == name_bytes(names@),
                ns.len() == names@.len(),
                is_permutation(order@, k as nat),
                forall|x: int| pos <= x < order@.len() ==> !lex_le(#[trigger] ns[order@[x] as int], ns[k as int]),
            decreases pos,
        {
            pos = pos - 1;
        }
        proof {
            assert(ns[k as int] == names@[k as int]@);
            if pos > 0 {
                assert(ns[order@[pos - 1] as int] == names@[order@[pos - 1] as int]@);
                assert(lex_le(ns[order@[pos - 1] as int], ns[k as int]));
            }
        }
        let ghost old_order = order@;
        order.insert(pos, k);
        proof {
            let o = order@;
            assert(o == old_order.insert(pos as int, k));
            assert forall|x: int| 0 <= x < o.len() implies
                (x < pos ==> o[x] == old_order[x]) && (x == pos ==> o[x] == k) && (x > pos ==> o[x] == old_order[x - 1]) by {
            }
            // everything before `pos` sorts before the new name
            assert forall|x: int| 0 <= x < pos implies lex_le(#[trigger] ns[old_order[x] as int], ns[k as int]) by {
                if x < pos - 1 {
                    assert(lex_le(ns[old_order[x] as int], ns[old_order[pos - 1] as int]));
                    lemma_lex_transitive(ns[old_order[x] as int], ns[old_order[pos - 1] as int], ns[k as int], 0);
                }
            }
            // everything from `pos` on sorts strictly after the new name
            assert forall|x: int| pos <= x < old_order.len() implies lex_le(ns[k as int], #[trigger] ns[old_order[x] as int])
                && ns[k as int] != ns[old_order[x] as int] by {
                lemma_lex_total(ns[k as int], ns[old_order[x] as int], 0);
                if ns[k as int] == ns[old_order[x] as int] {
                    lemma_lex_reflexive(ns[k as int], 0);
                }
            }
            assert forall|i: int| 0 <= i < o.len() implies #[trigger] o[i] < (k + 1) as nat by {
            }
            assert forall|i: int, j: int| 0 <= i < o.len() && 0 <= j < o.len() && i != j implies o[i] != o[j] by {
                if i != pos as int && j != pos as int {
                    let ii = if i < pos { i } else { i - 1 };
                    let jj = if j < pos { j } else { j - 1 };
                    assert(old_order[ii] != old_order[jj]);
                }
            }
            assert forall|i: int, j: int| 0 <= i < j < o.len() implies lex_le(
                #[trigger] ns[o[i] as int],
                #[trigger] ns[o[j] as int],
            ) by {
                if i == pos as int {
                } else if j == pos as int {
                } else {
                    let ii = if i < pos { i } else { i - 1 };
                    let jj = if j < pos { j } else { j - 1 };
                    assert(lex_le(ns[old_order[ii] as int], ns[old_order[jj] as int]));
                }
            }
            assert forall|i: int, j: int|
                0 <= i < j < o.len() && ns[o[i] as int] == ns[o[j] as int] implies #[trigger] o[i]
                < #[trigger] o[j] by {
                if i == pos as int {
                    let jj = j - 1;
                    assert(ns[k as int] != ns[old_order[jj] as int]);
                } else if j == pos as int {
                    assert(old_order[i] < k);
                } else {
                    let ii = if i < pos { i } else { i - 1 };
                    let jj = if j < pos { j } else { j - 1 };
                    assert(ns[old_order[ii] as int] == ns[old_order[jj] as int]);
                }
            }
        }
        k = k + 1;
    }
    order
}

/// A permutation of `0 .. n` lists every position below `n`.
pub proof fn lemma_permutation_covers(order: Seq<usize>, n: nat, v: int)
    requires
        is_permutation(order, n),
        0 <= v < n,
    ensures
        exists|j: int| 0 <= j < order.len() && order[j] as int == v,
{
    let ints = order.map_values(|x: usize| x as int);
    assert forall|i: int, j: int| 0 <= i < ints.len() && 0 <= j < ints.len() && i != j implies ints[i] != ints[j] by {
        assert(order[i] != order[j]);
    }
    ints.unique_seq_to_set();
    vstd::seq_lib::seq_to_set_is_finite(ints);
    vstd::set_lib::lemma_int_range(0, n as int);
    let range = vstd::set_lib::set_int_range(0, n as int);
    assert forall|x: int| ints.to_set().contains(x) implies range.contains(x) by {
        let i = choose|i: int| 0 <= i < ints.len() && ints[i] == x;
        assert(order[i] < n);
    }
    vstd::set_lib::lemma_subset_equality(ints.to_set(), range);
    assert(range.contains(v));
    assert(ints.to_set().contains(v));
    let j = choose|j: int| 0 <= j < ints.len() && ints[j] == v;
    assert(order[j] as int == v);
}

proof fn lemma_orders_agree_up_to(names: Seq<Seq<u8>>, o1: Seq<usize>, o2: Seq<usize>, i: int)
    requires
        is_permutation(o1, names.len()),
        is_permutation(o2, names.len()),
        sorted_by_name(names, o1),
        sorted_by_name(names, o2),
        keeps_ties(names, o1),
        keeps_ties(names, o2),
        0 <= i < o1.len(),
    ensures
        forall|k: int| 0 <= k <= i ==> o1[k] == o2[k],
    decreases i,
{
    if i > 0 {
        lemma_orders_agree_up_to(names, o1, o2, i - 1);
    }
    let a = o1[i];
    let b = o2[i];
    if a != b {
        lemma_permutation_covers(o1, names.len(), b as int);
        let j = choose|j: int| 0 <= j < o1.len() && o1[j] as int == b as int;
        lemma_permutation_covers(o2, names.len(), a as int);
        let k = choose|k: int| 0 <= k < o2.len() && o2[k] as int == a as int;
        if j < i {
            assert(o2[j] == b);
            assert(false);
        }
        if k < i {
            assert(o1[k] == a);
            assert(false);
        }
        assert(i < j && i < k);
        assert(lex_le(names[o1[i] as int], names[o1[j] as int]));
        assert(lex_le(names[o2[i] as int], names[o2[k] as int]));
        lemma_lex_equal(names[a as int], names[b as int]);
        assert(o1[i] < o1[j]);
        assert(o2[i] < o2[k]);
        assert(false);
    }
}

/// Sorting is deterministic: only one order of the positions lists each
/// once, sorts the names and keeps equal names in place. So the order in
/// which a directory lists its files does not change what is uploaded.
pub proof fn lemma_sorted_order_unique(names: Seq<Seq<u8>>, o1: Seq<usize>, o2: Seq<usize>)
    requires
        is_permutation(o1, names.len()),
        is_permutation(o2, names.len()),
        sorted_by_name(names, o1),
        sorted_by_name(names, o2),
        keeps_ties(names, o1),
        keeps_ties(names, o2),
    ensures
        o1 == o2,
{
    if o1.len() > 0 {
        lemma_orders_agree_up_to(names, o1, o2, o1.len() - 1);
    }
    assert(o1 =~= o2);
}

/// The order of names is the order of the bytes at the first position where
/// they differ: for names that agree on their first `i` bytes and differ at
/// byte `i`, `a` sorts first exactly when its byte there is smaller; a name
/// that is a prefix of another sorts first.
pub proof fn lemma_lex_first_difference(a: Seq<u8>, b: Seq<u8>, i: nat)
    requires
        i <= a.len(),
        i <= b.len(),
        forall|j: int| 0 <= j < i ==> a[j] == b[j],
    ensures
        i < a.len() && i < b.len() && a[i as int] != b[i as int] ==> (lex_le(a, b) <==> a[i as int] < b[i as int]),
        i == a.len() ==> lex_le(a, b),
        i == b.len() && i < a.len() ==> !lex_le(a, b),
{
    lemma_lex_skip_common_prefix(a, b, 0, i);
}

proof fn lemma_lex_skip_common_prefix(a: Seq<u8>, b: Seq<u8>, j: nat, i: nat)
    requires
        j <= i,
        i <= a.len(),
        i <= b.len(),
        forall|x: int| 0 <= x < i ==> a[x] == b[x],
    ensures
        lex_le_from(a, b, j) == lex_le_from(a, b, i),
    decreases i - j,
{
    if j < i {
        lemma_lex_skip_common_prefix(a, b, j + 1, i);
    }
}

/// One-byte names sort by their byte.
pub proof fn lemma_lex_single_bytes(x: u8, y: u8)
    ensures
        lex_le(seq![x], seq![y]) <==> x <= y,
{
    if x != y {
        lemma_lex_first_difference(seq![x], seq![y], 0);
    } else {
        lemma_lex_reflexive(seq![x], 0);
        assert(seq![x] =~= seq![y]);
    }
}

} // verus!
