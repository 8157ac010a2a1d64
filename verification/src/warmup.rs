use vstd::prelude::*;

verus! {

/// The sequence with every element raised by `n`.
pub open spec fn all_raised(s: Seq<i32>, n: i32) -> Seq<i32> {
    Seq::new(s.len(), |i: int| (s[i] + n) as i32)
}

/// `s` with later repetitions of an element removed: an element stays
/// only at its first occurrence, and the surviving elements keep their
/// relative order.
pub open spec fn dedup_seq(s: Seq<i32>) -> Seq<i32>
    decreases s.len(),
{
    if s.len() == 0 {
        Seq::empty()
    } else if s.drop_last().contains(s.last()) {
        dedup_seq(s.drop_last())
    } else {
        dedup_seq(s.drop_last()).push(s.last())
    }
}

/// An element survives deduplication exactly when it occurs in the input.
pub proof fn lemma_dedup_seq_contains(s: Seq<i32>, x: i32)
    ensures
        dedup_seq(s).contains(x) <==> s.contains(x),
    decreases s.len(),
{
    if s.len() > 0 {
        lemma_dedup_seq_contains(s.drop_last(), x);
        assert(s.contains(x) <==> (s.drop_last().contains(x) || s.last() == x)) by {
            if s.contains(x) {
                let i = choose|i: int| 0 <= i < s.len() && s[i] == x;
                if i < s.len() - 1 {
                    assert(s.drop_last()[i] == x);
                }
            }
            if s.drop_last().contains(x) {
                let i = choose|i: int| 0 <= i < s.drop_last().len() && s.drop_last()[i] == x;
                assert(s[i] == x);
            }
            if s.last() == x {
                assert(s[s.len() - 1] == x);
            }
        }
        let d = dedup_seq(s.drop_last());
        if s.drop_last().contains(s.last()) {
            if s.last() == x {
                assert(s.drop_last().contains(x));
            }
        } else {
            if dedup_seq(s).contains(x) {
                let i = choose|i: int| 0 <= i < d.push(s.last()).len() && d.push(s.last())[i] == x;
                if i < d.len() {
                    assert(d[i] == x);
                }
            }
            if d.contains(x) {
                let i = choose|i: int| 0 <= i < d.len() && d[i] == x;
                assert(d.push(s.last())[i] == x);
            }
            if s.last() == x {
                assert(d.push(s.last())[d.len() as int] == x);
            }
        }
    }
}

/// Returns a new vector whose elements are those of `v`, each raised by `n`.
pub fn add_n(v: Vec<i32>, n: i32) -> (r: Vec<i32>)
    requires
        forall|i: int| 0 <= i < v@.len() ==> i32::MIN <= #[trigger] v@[i] + n <= i32::MAX,
    ensures
        r@ == all_raised(v@, n),
{
    let mut ans: Vec<i32> = Vec::new();
    let mut k: usize = 0;
    while k < v.len()
        invariant
            0 <= k <= v@.len(),
            ans@.len() == k,
            forall|i: int| 0 <= i < v@.len() ==> i32::MIN <= #[trigger] v@[i] + n <= i32::MAX,
            forall|i: int| 0 <= i < k ==> ans@[i] == v@[i] + n,
        decreases v@.len() - k,
    {
        ans.push(v[k] + n);
        k = k + 1;
    }
    assert(ans@ =~= all_raised(v@, n));
    ans
}

/// Raises every element of `v` by `n`, in place.
pub fn add_n_inplace(v: &mut Vec<i32>, n: i32)
    requires
        forall|i: int| 0 <= i < old(v)@.len() ==> i32::MIN <= #[trigger] old(v)@[i] + n <= i32::MAX,
    ensures
        final(v)@ == all_raised(old(v)@, n),
{
    let mut k: usize = 0;
    while k < v.len()
        invariant
            0 <= k <= v@.len(),
            v@.len() == old(v)@.len(),
            forall|i: int| 0 <= i < old(v)@.len() ==> i32::MIN <= #[trigger] old(v)@[i] + n <= i32::MAX,
            forall|i: int| 0 <= i < k ==> v@[i] == old(v)@[i] + n,
            forall|i: int| k <= i < v@.len() ==> v@[i] == old(v)@[i],
        decreases v@.len() - k,
    {
        let x = v[k];
        v.set(k, x + n);
        k = k + 1;
    }
    assert(v@ =~= all_raised(old(v)@, n));
}

/// Removes duplicated elements from `v`, keeping the first occurrence of
/// each and the order of the survivors.
pub fn dedup(v: &mut Vec<i32>)
    ensures
        final(v)@ == dedup_seq(old(v)@),
{
    let mut kept: Vec<i32> = Vec::new();
    let mut k: usize = 0;
    while k < v.len()
        invariant
            0 <= k <= v@.len(),
            v@ == old(v)@,
            kept@ == dedup_seq(v@.take(k as int)),
        decreases v@.len() - k,
    {
        let x = v[k];
        let mut seen = false;
        let mut j: usize = 0;
        while j < kept.len()
            invariant
                0 <= j <= kept@.len(),
                seen <==> exists|i: int| 0 <= i < j && kept@[i] == x,
            decreases kept@.len() - j,
        {
            if kept[j] == x {
                seen = true;
            }
            j = j + 1;
        }
        proof {
            lemma_dedup_seq_contains(v@.take(k as int), x);
            assert(v@.take(k as int + 1).drop_last() =~= v@.take(k as int));
            assert(v@.take(k as int + 1).last() == v@[k as int]);
        }
        if !seen {
            kept.push(x);
        }
        k = k + 1;
    }
    proof {
        assert(v@.take(v@.len() as int) =~= v@);
    }
    *v = kept;
}

} // verus!
