//! Which notes are checked as a window-snapped pair: two notes of the same
//! colour on the same beat, when no other note of that colour shares the
//! beat. A note is keyed by its colour and the bit pattern of its beat; the
//! angles themselves are compared in floating point, outside this library.
use vstd::prelude::*;

verus! {

/// How many notes carry the key `k`.
pub open spec fn occurrences(keys: Seq<(u32, u32)>, k: (u32, u32)) -> nat
    decreases keys.len(),
{
    if keys.len() == 0 {
        0
    } else {
        occurrences(keys.drop_last(), k) + if keys.last() == k { 1nat } else { 0nat }
    }
}

/// Notes `i` and `j` (in that order) form a pair: they share a key that no
/// other note carries.
pub open spec fn is_snap_pair(keys: Seq<(u32, u32)>, i: int, j: int) -> bool {
    &&& 0 <= i < j < keys.len()
    &&& keys[i] == keys[j]
    &&& occurrences(keys, keys[i]) == 2
}

proof fn lemma_occurrences_take(keys: Seq<(u32, u32)>, k: (u32, u32), n: int)
    requires
        0 <= n < keys.len(),
    ensures
        occurrences(keys.take(n + 1), k) == occurrences(keys.take(n), k) + if keys[n] == k { 1nat } else { 0nat },
{
    assert(keys.take(n + 1).drop_last() =~= keys.take(n));
}

/// Two distinct positions with the key give at least two occurrences; three
/// give at least three.
proof fn lemma_occurrences_count(keys: Seq<(u32, u32)>, k: (u32, u32), n: int)
    requires
        0 <= n <= keys.len(),
    ensures
        occurrences(keys.take(n), k) == (Set::new(|p: int| 0 <= p < n && keys[p] == k)).len(),
        (Set::new(|p: int| 0 <= p < n && keys[p] == k)).finite(),
    decreases n,
{
    let s = Set::new(|p: int| 0 <= p < n && keys[p] == k);
    if n == 0 {
        assert(keys.take(0) =~= Seq::<(u32, u32)>::empty());
        assert(s =~= Set::<int>::empty());
    } else {
        let t = Set::new(|p: int| 0 <= p < n - 1 && keys[p] == k);
        lemma_occurrences_count(keys, k, n - 1);
        lemma_occurrences_take(keys, k, n - 1);
        if keys[n - 1] == k {
            assert(s =~= t.insert(n - 1));
        } else {
            assert(s =~= t);
        }
    }
}

fn same_key(a: (u32, u32), b: (u32, u32)) -> (r: bool)
    ensures
        r == (a == b),
{
    a.0 == b.0 && a.1 == b.1
}

fn count_key(keys: &[(u32, u32)], k: (u32, u32)) -> (c: usize)
    ensures
        c == occurrences(keys@, k),
{
    let mut c: usize = 0;
    let n = keys.len();
    for i in 0..n
        invariant
            n == keys@.len(),
            c == occurrences(keys@.take(i as int), k),
            c <= i,
    {
        proof {
            lemma_occurrences_take(keys@, k, i as int);
        }
        if same_key(keys[i], k) {
            c = c + 1;
        }
    }
    assert(keys@.take(n as int) =~= keys@);
    c
}

/// The pairs of notes to check, each once, earlier note first, ordered by
/// the earlier note.
pub fn window_snap_pairs(keys: &[(u32, u32)]) -> (r: Vec<(usize, usize)>)
    ensures
        forall|q: int| 0 <= q < r@.len() ==> is_snap_pair(keys@, (#[trigger] r@[q]).0 as int, r@[q].1 as int),
        forall|q: int, w: int| 0 <= q < w < r@.len() ==> (#[trigger] r@[q]).0 < (#[trigger] r@[w]).0,
        forall|i: int, j: int| #[trigger] is_snap_pair(keys@, i, j) ==> r@.contains((i as usize, j as usize)),
{
    let n = keys.len();
    let mut r: Vec<(usize, usize)> = Vec::new();
    for i in 0..n
        invariant
            n == keys@.len(),
            forall|q: int| 0 <= q < r@.len() ==> is_snap_pair(keys@, (#[trigger] r@[q]).0 as int, r@[q].1 as int),
            forall|q: int, w: int| 0 <= q < w < r@.len() ==> (#[trigger] r@[q]).0 < (#[trigger] r@[w]).0,
            forall|q: int| 0 <= q < r@.len() ==> (#[trigger] r@[q]).0 < i,
            forall|a: int, b: int| #[trigger] is_snap_pair(keys@, a, b) && a < i ==> r@.contains((a as usize, b as usize)),
    {
        let k = keys[i];
        if count_key(keys, k) == 2 {
            // the partner after `i`, if `i` is the first of the two
            let mut first = true;
            let mut p: usize = 0;
            while p < i
                invariant
                    i < n,
                    n == keys@.len(),
                    p <= i,
                    k == keys@[i as int],
                    first == (forall|x: int| 0 <= x < p ==> keys@[x] != k),
                decreases i - p,
            {
                if same_key(keys[p], k) {
                    first = false;
                }
                p = p + 1;
            }
            if first {
                let mut j = i + 1;
                let mut found = false;
                while j < n && !found
                    invariant
                        i < j <= n,
                        n == keys@.len(),
                        k == keys@[i as int],
                        !found ==> forall|x: int| i < x < j ==> keys@[x] != k,
                        found ==> j - 1 > i && keys@[j - 1] == k,
                    decreases n - j,
                {
                    if same_key(keys[j], k) {
                        found = true;
                    }
                    j = j + 1;
                }
                if found {
                    let ghost prev = r@;
                    r.push((i, j - 1));
                    proof {
                        assert(is_snap_pair(keys@, i as int, j - 1));
                        assert forall|a: int, b: int| #[trigger] is_snap_pair(keys@, a, b) && a < i + 1
                            implies r@.contains((a as usize, b as usize)) by {
                            if a < i {
                                let q = choose|q: int| 0 <= q < prev.len() && prev[q] == (a as usize, b as usize);
                                assert(r@[q] == prev[q]);
                            } else {
                                lemma_pair_unique(keys@, a, b, j - 1);
                                assert(r@[prev.len() as int] == (a as usize, b as usize));
                            }
                        }
                    }
                } else {
                    proof {
                        assert forall|a: int, b: int| #[trigger] is_snap_pair(keys@, a, b) && a < i + 1
                            implies r@.contains((a as usize, b as usize)) by {
                            if a == i {
                                assert(keys@[b] == k);
                            }
                        }
                    }
                }
            } else {
                proof {
                    assert forall|a: int, b: int| #[trigger] is_snap_pair(keys@, a, b) && a < i + 1
                        implies r@.contains((a as usize, b as usize)) by {
                        if a == i {
                            let x = choose|x: int| 0 <= x < i && keys@[x] == k;
                            lemma_three_occurrences(keys@, k, x, a, b);
                        }
                    }
                }
            }
        } else {
            proof {
                assert forall|a: int, b: int| #[trigger] is_snap_pair(keys@, a, b) && a < i + 1
                    implies r@.contains((a as usize, b as usize)) by {
                    if a == i {
                        assert(occurrences(keys@, keys@[a]) == 2);
                    }
                }
            }
        }
    }
    r
}

/// With a key carried by exactly two notes `a < b`, `b` is the only later note
/// carrying it.
proof fn lemma_pair_unique(keys: Seq<(u32, u32)>, a: int, b: int, c: int)
    requires
        is_snap_pair(keys, a, b),
        a < c < keys.len(),
        keys[c] == keys[a],
    ensures
        b == c,
{
    if b != c {
        lemma_three_occurrences(keys, keys[a], a, b, c);
    }
}

/// Three distinct positions carrying one key make more than two occurrences.
proof fn lemma_three_occurrences(keys: Seq<(u32, u32)>, k: (u32, u32), x: int, y: int, z: int)
    requires
        0 <= x < keys.len(),
        0 <= y < keys.len(),
        0 <= z < keys.len(),
        x != y,
        y != z,
        x != z,
        keys[x] == k,
        keys[y] == k,
        keys[z] == k,
    ensures
        occurrences(keys, k) != 2,
{
    let n = keys.len() as int;
    lemma_occurrences_count(keys, k, n);
    assert(keys.take(n) =~= keys);
    let s = Set::new(|p: int| 0 <= p < n && keys[p] == k);
    let three = set![x, y, z];
    assert(three.subset_of(s));
    vstd::set_lib::lemma_len_subset(three, s);
    assert(three.len() == 3) by {
        assert(set![x].insert(y).len() == 2);
    }
}

} // verus!
