//! The order of strings (lexicographic by character, which is the order of
//! `String` and of UTF-8 bytes), and a stable sort of indices by string keys.
use vstd::prelude::*;

verus! {

/// `a` comes strictly before `b` in lexicographic order.
pub open spec fn lex_lt(a: Seq<char>, b: Seq<char>) -> bool
    decreases a.len(),
{
    if a.len() == 0 {
        b.len() > 0
    } else if b.len() == 0 {
        false
    } else if a[0] < b[0] {
        true
    } else if a[0] > b[0] {
        false
    } else {
        lex_lt(a.drop_first(), b.drop_first())
    }
}

/// Nothing comes before itself, and two strings do not both come before each other.
pub proof fn lemma_lex_asym(a: Seq<char>, b: Seq<char>)
    ensures
        !lex_lt(a, a),
        !(lex_lt(a, b) && lex_lt(b, a)),
    decreases a.len(),
{
    if a.len() > 0 && b.len() > 0 {
        lemma_lex_asym(a.drop_first(), b.drop_first());
    }
    if a.len() > 0 {
        lemma_lex_asym(a.drop_first(), a.drop_first());
    }
}

/// Two different strings are ordered one way or the other.
pub proof fn lemma_lex_total(a: Seq<char>, b: Seq<char>)
    ensures
        a == b || lex_lt(a, b) || lex_lt(b, a),
    decreases a.len(),
{
    if a.len() > 0 && b.len() > 0 {
        lemma_lex_total(a.drop_first(), b.drop_first());
        if a[0] == b[0] && a.drop_first() == b.drop_first() {
            assert(a =~= seq![a[0]] + a.drop_first());
            assert(b =~= seq![b[0]] + b.drop_first());
        }
    } else if a.len() == 0 && b.len() == 0 {
        assert(a =~= b);
    }
}

/// The order is transitive.
pub proof fn lemma_lex_trans(a: Seq<char>, b: Seq<char>, c: Seq<char>)
    requires
        lex_lt(a, b),
        lex_lt(b, c),
    ensures
        lex_lt(a, c),
    decreases a.len(),
{
    if a.len() > 0 && b.len() > 0 && c.len() > 0 {
        if a[0] == b[0] && b[0] == c[0] {
            lemma_lex_trans(a.drop_first(), b.drop_first(), c.drop_first());
        }
    }
}

/// Whether `a` comes strictly before `b`.
pub fn chars_lt(a: &[char], b: &[char]) -> (r: bool)
    ensures
        r == lex_lt(a@, b@),
{
    let mut i: usize = 0;
    assert(a@.subrange(0, a.len() as int) =~= a@);
    assert(b@.subrange(0, b.len() as int) =~= b@);
    while i < a.len() && i < b.len()
        invariant
            i <= a.len(),
            i <= b.len(),
            lex_lt(a@, b@) == lex_lt(a@.subrange(i as int, a.len() as int), b@.subrange(
                i as int,
                b.len() as int,
            )),
        decreases a.len() - i,
    {
        let x = a[i];
        let y = b[i];
        if x < y {
            return true;
        }
        if x > y {
            return false;
        }
        assert(a@.subrange(i as int, a.len() as int).drop_first() =~= a@.subrange(
            i + 1,
            a.len() as int,
        ));
        assert(b@.subrange(i as int, b.len() as int).drop_first() =~= b@.subrange(
            i + 1,
            b.len() as int,
        ));
        i += 1;
    }
    i == a.len() && i < b.len()
}

/// Whether index `x` goes before index `y` when sorting by `keys`: by key
/// (descending when `desc`), equal keys in their original order.
pub open spec fn precedes(keys: Seq<Seq<char>>, desc: bool, x: int, y: int) -> bool {
    ||| (!desc && lex_lt(keys[x], keys[y]))
    ||| (desc && lex_lt(keys[y], keys[x]))
    ||| (keys[x] == keys[y] && x < y)
}

/// `p` lists each of `0..n` exactly once.
pub open spec fn is_permutation(p: Seq<usize>, n: nat) -> bool {
    &&& p.len() == n
    &&& forall|i: int| 0 <= i < p.len() ==> #[trigger] p[i] < n
    &&& forall|i: int, j: int| 0 <= i < j < p.len() ==> p[i] != p[j]
}

/// `p` is in sorting order.
pub open spec fn in_order(keys: Seq<Seq<char>>, desc: bool, p: Seq<usize>) -> bool {
    forall|a: int, b: int|
        0 <= a < b < p.len() ==> precedes(keys, desc, #[trigger] p[a] as int, #[trigger] p[b] as int)
}

proof fn lemma_precedes_trans(keys: Seq<Seq<char>>, desc: bool, x: int, y: int, z: int)
    requires
        precedes(keys, desc, x, y),
        precedes(keys, desc, y, z),
    ensures
        precedes(keys, desc, x, z),
{
    if desc {
        if lex_lt(keys[y], keys[x]) && lex_lt(keys[z], keys[y]) {
            lemma_lex_trans(keys[z], keys[y], keys[x]);
        }
    } else {
        if lex_lt(keys[x], keys[y]) && lex_lt(keys[y], keys[z]) {
            lemma_lex_trans(keys[x], keys[y], keys[z]);
        }
    }
}

proof fn lemma_precedes_asym(keys: Seq<Seq<char>>, desc: bool, x: int, y: int)
    ensures
        !(precedes(keys, desc, x, y) && precedes(keys, desc, y, x)),
{
    lemma_lex_asym(keys[x], keys[y]);
    lemma_lex_asym(keys[x], keys[x]);
    lemma_lex_asym(keys[y], keys[y]);
}

/// A permutation of `0..n` lists every index below `n`.
pub proof fn lemma_permutation_onto(p: Seq<usize>, n: nat, v: usize)
    requires
        is_permutation(p, n),
        v < n,
    ensures
        exists|i: int| 0 <= i < p.len() && p[i] == v,
{
    let t = p.map_values(|x: usize| x as int);
    assert(t.no_duplicates()) by {
        assert forall|i: int, j: int| 0 <= i < t.len() && 0 <= j < t.len() && i != j implies t[i]
            != t[j] by {
            if i < j {
                assert(p[i] != p[j]);
            } else {
                assert(p[j] != p[i]);
            }
        }
    }
    t.unique_seq_to_set();
    vstd::set_lib::lemma_int_range(0, n as int);
    let r = vstd::set_lib::set_int_range(0, n as int);
    assert(t.to_set().subset_of(r)) by {
        assert forall|x: int| t.to_set().contains(x) implies r.contains(x) by {
            let i = choose|i: int| 0 <= i < t.len() && t[i] == x;
            assert(p[i] < n);
        }
    }
    vstd::set_lib::lemma_subset_equality(t.to_set(), r);
    assert(r.contains(v as int));
    assert(t.to_set().contains(v as int));
    let i = choose|i: int| 0 <= i < t.len() && t[i] == v as int;
    assert(p[i] == v);
}

proof fn lemma_sorted_prefix_agrees(keys: Seq<Seq<char>>, desc: bool, p: Seq<usize>, q: Seq<usize>, k: nat)
    requires
        is_permutation(p, keys.len()),
        is_permutation(q, keys.len()),
        in_order(keys, desc, p),
        in_order(keys, desc, q),
        k <= p.len(),
    ensures
        forall|i: int| 0 <= i < k ==> p[i] == q[i],
    decreases k,
{
    if k > 0 {
        lemma_sorted_prefix_agrees(keys, desc, p, q, (k - 1) as nat);
        let i: int = k - 1;
        let x = p[i];
        let y = q[i];
        if x != y {
            lemma_permutation_onto(q, keys.len(), x);
            lemma_permutation_onto(p, keys.len(), y);
            let m = choose|m: int| 0 <= m < q.len() && q[m] == x;
            let l = choose|l: int| 0 <= l < p.len() && p[l] == y;
            if m < i {
                assert(p[m] == q[m]);
                assert(p[m] != p[i]);
            }
            if l < i {
                assert(p[l] == q[l]);
                assert(q[l] != q[i]);
            }
            assert(m > i);
            assert(l > i);
            assert(precedes(keys, desc, p[i] as int, p[l] as int));
            assert(precedes(keys, desc, q[i] as int, q[m] as int));
            lemma_precedes_asym(keys, desc, x as int, y as int);
        }
    }
}

/// There is one stable sorting order: two permutations that both list the
/// indices in sorting order are the same.
pub proof fn lemma_sorted_order_unique(keys: Seq<Seq<char>>, desc: bool, p: Seq<usize>, q: Seq<usize>)
    requires
        is_permutation(p, keys.len()),
        is_permutation(q, keys.len()),
        in_order(keys, desc, p),
        in_order(keys, desc, q),
    ensures
        p == q,
{
    lemma_sorted_prefix_agrees(keys, desc, p, q, p.len());
    assert(p =~= q);
}

/// The stable sorting order of `keys`.
pub open spec fn stable_order(keys: Seq<Seq<char>>, desc: bool) -> Seq<usize> {
    choose|p: Seq<usize>| is_permutation(p, keys.len()) && in_order(keys, desc, p)
}

/// An order that sorts `keys` stably is `stable_order(keys, desc)`.
pub proof fn lemma_is_stable_order(keys: Seq<Seq<char>>, desc: bool, p: Seq<usize>)
    requires
        is_permutation(p, keys.len()),
        in_order(keys, desc, p),
    ensures
        stable_order(keys, desc) == p,
{
    let q = stable_order(keys, desc);
    assert(is_permutation(q, keys.len()) && in_order(keys, desc, q));
    lemma_sorted_order_unique(keys, desc, p, q);
}

/// Where index `i` goes among the sorted indices `p`: after every index
/// that goes before it, found by stepping back from `j`.
proof fn lemma_insert_position(keys: Seq<Seq<char>>, desc: bool, p: Seq<usize>, i: int, j: nat) -> (r:
    nat)
    requires
        j <= p.len(),
        forall|b: int| j <= b < p.len() ==> precedes(keys, desc, i, #[trigger] p[b] as int),
    ensures
        r <= j,
        r == 0 || !precedes(keys, desc, i, p[r - 1] as int),
        forall|b: int| r <= b < p.len() ==> precedes(keys, desc, i, #[trigger] p[b] as int),
    decreases j,
{
    if j > 0 && precedes(keys, desc, i, p[j - 1] as int) {
        lemma_insert_position(keys, desc, p, i, (j - 1) as nat)
    } else {
        j
    }
}

proof fn lemma_sorted_prefix_exists(keys: Seq<Seq<char>>, desc: bool, n: nat)
    requires
        n <= keys.len() <= usize::MAX,
    ensures
        exists|p: Seq<usize>| is_permutation(p, n) && in_order(keys, desc, p),
    decreases n,
{
    if n == 0 {
        let e = Seq::<usize>::empty();
        assert(is_permutation(e, 0) && in_order(keys, desc, e));
    } else {
        let i: int = n - 1;
        lemma_sorted_prefix_exists(keys, desc, (n - 1) as nat);
        let p = choose|p: Seq<usize>| is_permutation(p, (n - 1) as nat) && in_order(keys, desc, p);
        let j = lemma_insert_position(keys, desc, p, i, p.len());
        if j > 0 {
            let y = p[j - 1] as int;
            lemma_lex_total(keys[y], keys[i]);
            lemma_lex_asym(keys[y], keys[i]);
            assert(y < i);
            assert(precedes(keys, desc, y, i));
            assert forall|a: int| 0 <= a < j implies precedes(keys, desc, #[trigger] p[a] as int, i) by {
                if a < j - 1 {
                    lemma_precedes_trans(keys, desc, p[a] as int, y, i);
                }
            }
        }
        let q = p.insert(j as int, i as usize);
        assert forall|x: int, y: int| 0 <= x < y < q.len() implies q[x] != q[y] by {
            if x < j && y < j {
            } else if x < j && y == j {
            } else if x < j {
                assert(q[y] == p[y - 1]);
            } else if x == j {
                assert(q[y] == p[y - 1]);
            } else {
                assert(q[x] == p[x - 1]);
                assert(q[y] == p[y - 1]);
            }
        }
        assert forall|x: int| 0 <= x < q.len() implies #[trigger] q[x] < n by {
            if x < j {
            } else if x > j {
                assert(q[x] == p[x - 1]);
            }
        }
        assert forall|a: int, b: int| 0 <= a < b < q.len() implies precedes(
            keys,
            desc,
            #[trigger] q[a] as int,
            #[trigger] q[b] as int,
        ) by {
            if a < j && b < j {
                assert(precedes(keys, desc, p[a] as int, p[b] as int));
            } else if a < j && b == j {
            } else if a < j {
                assert(q[b] == p[b - 1]);
                assert(precedes(keys, desc, p[a] as int, p[b - 1] as int));
            } else if a == j {
                assert(q[b] == p[b - 1]);
            } else {
                assert(q[a] == p[a - 1]);
                assert(q[b] == p[b - 1]);
                assert(precedes(keys, desc, p[a - 1] as int, p[b - 1] as int));
            }
        }
        assert(is_permutation(q, n) && in_order(keys, desc, q));
    }
}

/// Every list of keys that a vector can hold has its stable sorting order:
/// `stable_order` lists each index once, in sorting order.
pub proof fn lemma_stable_order_sorts(keys: Seq<Seq<char>>, desc: bool)
    requires
        keys.len() <= usize::MAX,
    ensures
        is_permutation(stable_order(keys, desc), keys.len()),
        in_order(keys, desc, stable_order(keys, desc)),
{
    lemma_sorted_prefix_exists(keys, desc, keys.len());
}

/// Whether the key at `x` strictly goes before the key at `y`.
fn key_first(keys: &Vec<Vec<char>>, desc: bool, x: usize, y: usize) -> (r: bool)
    requires
        x < keys.len(),
        y < keys.len(),
    ensures
        r == if desc {
            lex_lt(keys@[y as int]@, keys@[x as int]@)
        } else {
            lex_lt(keys@[x as int]@, keys@[y as int]@)
        },
{
    if desc {
        chars_lt(&keys[y], &keys[x])
    } else {
        chars_lt(&keys[x], &keys[y])
    }
}

/// The stable sorting order of `keys`: ascending, or descending when `desc`.
pub fn sorted_order(keys: &Vec<Vec<char>>, desc: bool) -> (p: Vec<usize>)
    ensures
        is_permutation(p@, keys@.len()),
        in_order(keys@.map_values(|k: Vec<char>| k@), desc, p@),
{
    let ghost kv = keys@.map_values(|k: Vec<char>| k@);
    let mut p: Vec<usize> = Vec::new();
    let mut i: usize = 0;
    while i < keys.len()
        invariant
            i <= keys.len(),
            kv == keys@.map_values(|k: Vec<char>| k@),
            is_permutation(p@, i as nat),
            in_order(kv, desc, p@),
        decreases keys.len() - i,
    {
        // The new index goes after every index whose key comes before or equals its key.
        let mut j: usize = p.len();
        while j > 0 && key_first(keys, desc, i, p[j - 1])
            invariant
                j <= p.len(),
                p.len() == i,
                i < keys.len(),
                kv == keys@.map_values(|k: Vec<char>| k@),
                is_permutation(p@, i as nat),
                in_order(kv, desc, p@),
                forall|b: int| j <= b < p.len() ==> precedes(kv, desc, i as int, #[trigger] p@[b] as int),
            decreases j,
        {
            proof {
                let y = p@[j - 1] as int;
                assert(precedes(kv, desc, i as int, y));
            }
            j -= 1;
        }
        proof {
            if j > 0 {
                let y = p@[j - 1] as int;
                // The key at j - 1 is not after the new key, so it goes first.
                lemma_lex_total(kv[y], kv[i as int]);
                lemma_lex_asym(kv[y], kv[i as int]);
                assert(y < i);
                assert(precedes(kv, desc, y, i as int));
                assert forall|a: int| 0 <= a < j implies precedes(kv, desc, #[trigger] p@[a] as int, i as int) by {
                    if a < j - 1 {
                        lemma_precedes_trans(kv, desc, p@[a] as int, y, i as int);
                    }
                }
            }
        }
        let ghost old_p = p@;
        p.insert(j, i);
        proof {
            assert(p@ =~= old_p.insert(j as int, i));
            assert forall|x: int, y: int| 0 <= x < y < p@.len() implies p@[x] != p@[y] by {
                if x < j && y < j {
                } else if x < j && y == j {
                } else if x < j {
                    assert(p@[y] == old_p[y - 1]);
                } else if x == j {
                    assert(p@[y] == old_p[y - 1]);
                } else {
                    assert(p@[x] == old_p[x - 1]);
                    assert(p@[y] == old_p[y - 1]);
                }
            }
            assert forall|x: int| 0 <= x < p@.len() implies #[trigger] p@[x] < i + 1 by {
                if x < j {
                } else if x > j {
                    assert(p@[x] == old_p[x - 1]);
                }
            }
            assert forall|a: int, b: int| 0 <= a < b < p@.len() implies precedes(
                kv,
                desc,
                #[trigger] p@[a] as int,
                #[trigger] p@[b] as int,
            ) by {
                if a < j && b < j {
                    assert(precedes(kv, desc, old_p[a] as int, old_p[b] as int));
                } else if a < j && b == j {
                } else if a < j {
                    assert(p@[b] == old_p[b - 1]);
                    assert(precedes(kv, desc, old_p[a] as int, old_p[b - 1] as int));
                } else if a == j {
                    assert(p@[b] == old_p[b - 1]);
                } else {
                    assert(p@[a] == old_p[a - 1]);
                    assert(p@[b] == old_p[b - 1]);
                    assert(precedes(kv, desc, old_p[a - 1] as int, old_p[b - 1] as int));
                }
            }
        }
        i += 1;
    }
    p
}

} // verus!
