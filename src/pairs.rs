//! Ordered string maps kept as vectors of key/value pairs with unique keys.
use vstd::prelude::*;

verus! {

/// The characters of each key, with the view of its value.
pub open spec fn entries_view<V: View>(v: Seq<(String, V)>) -> Seq<(Seq<char>, V::V)> {
    v.map_values(|p: (String, V)| (p.0@, p.1@))
}

/// No key occurs twice.
pub open spec fn unique_keys<V>(h: Seq<(Seq<char>, V)>) -> bool {
    forall|i: int, j: int| 0 <= i < h.len() && 0 <= j < h.len() && h[i].0 == h[j].0 ==> i == j
}

/// Whether `k` is a key of `h`.
pub open spec fn has_key<V>(h: Seq<(Seq<char>, V)>, k: Seq<char>) -> bool {
    exists|i: int| 0 <= i < h.len() && h[i].0 == k
}

/// `h` with `k` mapped to `v`: the pair of key `k` is replaced in place, or a
/// new pair is added at the end.
pub open spec fn set_pair<V>(h: Seq<(Seq<char>, V)>, k: Seq<char>, v: V) -> Seq<
    (Seq<char>, V),
> {
    if has_key(h, k) {
        let i = choose|i: int| 0 <= i < h.len() && h[i].0 == k;
        h.update(i, (k, v))
    } else {
        h.push((k, v))
    }
}

/// `h` with each pair of `ps` set in turn, so a later pair wins.
pub open spec fn set_pairs<V>(h: Seq<(Seq<char>, V)>, ps: Seq<(Seq<char>, V)>) -> Seq<
    (Seq<char>, V),
>
    decreases ps.len(),
{
    if ps.len() == 0 {
        h
    } else {
        let h2 = set_pairs(h, ps.drop_last());
        set_pair(h2, ps.last().0, ps.last().1)
    }
}

/// Setting a key keeps the keys unique.
pub proof fn lemma_set_pair_unique<V>(h: Seq<(Seq<char>, V)>, k: Seq<char>, v: V)
    requires
        unique_keys(h),
    ensures
        unique_keys(set_pair(h, k, v)),
        has_key(set_pair(h, k, v), k),
        forall|k2: Seq<char>| k2 != k ==> (has_key(set_pair(h, k, v), k2) == has_key(h, k2)),
{
    let r = set_pair(h, k, v);
    if has_key(h, k) {
        let i = choose|i: int| 0 <= i < h.len() && h[i].0 == k;
        assert(r[i].0 == k);
        assert forall|k2: Seq<char>| k2 != k implies (has_key(r, k2) == has_key(h, k2)) by {
            if has_key(h, k2) {
                let j = choose|j: int| 0 <= j < h.len() && h[j].0 == k2;
                assert(r[j].0 == k2);
            }
            if has_key(r, k2) {
                let j = choose|j: int| 0 <= j < r.len() && r[j].0 == k2;
                assert(h[j].0 == k2);
            }
        }
    } else {
        assert(r[h.len() as int].0 == k);
        assert forall|k2: Seq<char>| k2 != k implies (has_key(r, k2) == has_key(h, k2)) by {
            if has_key(h, k2) {
                let j = choose|j: int| 0 <= j < h.len() && h[j].0 == k2;
                assert(r[j].0 == k2);
            }
            if has_key(r, k2) {
                let j = choose|j: int| 0 <= j < r.len() && r[j].0 == k2;
                assert(h[j].0 == k2);
            }
        }
    }
}

/// Maps `k` to `v` in `h`, in place when the key is there, else at the end.
pub fn set_entry<V: View>(h: &mut Vec<(String, V)>, k: String, v: V)
    requires
        unique_keys(entries_view(old(h)@)),
    ensures
        entries_view(final(h)@) == set_pair(entries_view(old(h)@), k@, v@),
        unique_keys(entries_view(final(h)@)),
{
    let ghost hv = entries_view(h@);
    proof {
        lemma_set_pair_unique(hv, k@, v@);
    }
    let mut i: usize = 0;
    while i < h.len()
        invariant
            h@ == old(h)@,
            hv == entries_view(h@),
            unique_keys(hv),
            i <= h@.len(),
            forall|m: int| 0 <= m < i ==> hv[m].0 != k@,
        decreases h.len() - i,
    {
        if h[i].0 == k {
            proof {
                assert(hv[i as int].0 == k@);
                assert(has_key(hv, k@));
                let c = choose|c: int| 0 <= c < hv.len() && hv[c].0 == k@;
                assert(c == i);
            }
            h.set(i, (k, v));
            proof {
                assert(entries_view(h@) =~= hv.update(i as int, (k@, v@)));
            }
            return;
        }
        i = i + 1;
    }
    proof {
        assert(!has_key(hv, k@));
    }
    h.push((k, v));
    proof {
        assert(entries_view(h@) =~= hv.push((k@, v@)));
    }
}

} // verus!
