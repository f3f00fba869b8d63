//! Association sequences keyed by `u64`, with first-match lookup.
//!
//! Several per-connection tables (outbound stream buffers, inbound
//! reassembly buffers) are small vectors of key/value pairs with distinct
//! keys.  The helpers here give them one lookup spec and the lemmas that
//! connect it to pushes and in-place updates.

use vstd::prelude::*;

verus! {

/// The value bound to `k`, if any: the first entry wins.
pub open spec fn assoc_get<T>(s: Seq<(u64, T)>, k: u64) -> Option<T>
    decreases s.len(),
{
    if s.len() == 0 {
        None
    } else if s[0].0 == k {
        Some(s[0].1)
    } else {
        assoc_get(s.skip(1), k)
    }
}

/// No key appears twice.
pub open spec fn assoc_wf<T>(s: Seq<(u64, T)>) -> bool {
    forall|i: int, j: int|
        0 <= i < j < s.len() ==> (#[trigger] s[i]).0 != (#[trigger] s[j]).0
}

/// With distinct keys, any entry holding `k` gives the lookup's answer.
pub proof fn lemma_assoc_get_at<T>(s: Seq<(u64, T)>, i: int)
    requires
        assoc_wf(s),
        0 <= i < s.len(),
    ensures
        assoc_get(s, s[i].0) == Some(s[i].1),
    decreases s.len(),
{
    if i > 0 {
        assert(s[0].0 != s[i].0);
        assert(s.skip(1)[i - 1] == s[i]);
        assert(assoc_wf(s.skip(1))) by {
            assert forall|a: int, b: int|
                0 <= a < b < s.skip(1).len() implies (#[trigger] s.skip(1)[a]).0 != (
            #[trigger] s.skip(1)[b]).0 by {
                assert(s.skip(1)[a] == s[a + 1]);
                assert(s.skip(1)[b] == s[b + 1]);
            }
        }
        lemma_assoc_get_at(s.skip(1), i - 1);
    }
}

/// An absent key appears in no entry.
pub proof fn lemma_assoc_get_none<T>(s: Seq<(u64, T)>, k: u64)
    ensures
        assoc_get(s, k) is None <==> forall|i: int| 0 <= i < s.len() ==> (#[trigger] s[i]).0 != k,
    decreases s.len(),
{
    if s.len() > 0 {
        lemma_assoc_get_none(s.skip(1), k);
        assert forall|i: int| 0 <= i < s.skip(1).len() implies s.skip(1)[i] == s[i + 1] by {}
        if s[0].0 != k && assoc_get(s, k) is None {
            assert forall|i: int| 0 <= i < s.len() implies (#[trigger] s[i]).0 != k by {
                if i > 0 {
                    assert(s.skip(1)[i - 1] == s[i]);
                }
            }
        }
    }
}

/// Appending a fresh key binds it and nothing else.
pub proof fn lemma_assoc_push<T>(s: Seq<(u64, T)>, k: u64, v: T, q: u64)
    requires
        assoc_get(s, k) is None,
    ensures
        assoc_get(s.push((k, v)), q) == (if q == k {
            Some(v)
        } else {
            assoc_get(s, q)
        }),
        assoc_wf(s) ==> assoc_wf(s.push((k, v))),
    decreases s.len(),
{
    reveal_with_fuel(assoc_get, 3);
    lemma_assoc_get_none(s, k);
    if s.len() == 0 {
        assert(s.push((k, v))[0] == (k, v));
        if q != k {
            assert(s.push((k, v)).skip(1) =~= Seq::<(u64, T)>::empty());
        }
    } else {
        assert(s[0].0 != k);
        assert(s.push((k, v))[0] == s[0]);
        assert(s.push((k, v)).skip(1) =~= s.skip(1).push((k, v)));
        lemma_assoc_push(s.skip(1), k, v, q);
        if s[0].0 == q {
            assert(assoc_get(s.push((k, v)), q) == Some(s[0].1));
            assert(assoc_get(s, q) == Some(s[0].1));
        }
    }
    if q == k {
        assert(assoc_get(s.push((k, v)), q) == Some(v));
    } else {
        assert(assoc_get(s.push((k, v)), q) == assoc_get(s, q));
    }
    if assoc_wf(s) {
        assert forall|a: int, b: int|
            0 <= a < b < s.push((k, v)).len() implies (#[trigger] s.push((k, v))[a]).0 != (
        #[trigger] s.push((k, v))[b]).0 by {
            if b < s.len() {
                assert(s.push((k, v))[a] == s[a]);
                assert(s.push((k, v))[b] == s[b]);
            } else {
                assert(s.push((k, v))[a] == s[a]);
                assert(s.push((k, v))[b] == (k, v));
            }
        }
    }
}

/// Updating an entry in place rebinds its key and nothing else.
pub proof fn lemma_assoc_update<T>(s: Seq<(u64, T)>, i: int, v: T, q: u64)
    requires
        assoc_wf(s),
        0 <= i < s.len(),
    ensures
        assoc_get(s.update(i, (s[i].0, v)), q) == (if q == s[i].0 {
            Some(v)
        } else {
            assoc_get(s, q)
        }),
        assoc_wf(s.update(i, (s[i].0, v))),
    decreases s.len(),
{
    let t = s.update(i, (s[i].0, v));
    assert forall|a: int, b: int|
        0 <= a < b < t.len() implies (#[trigger] t[a]).0 != (#[trigger] t[b]).0 by {
        assert(t[a].0 == s[a].0);
        assert(t[b].0 == s[b].0);
    }
    if i == 0 {
        if q != s[0].0 {
            assert(t.skip(1) =~= s.skip(1));
        }
    } else {
        assert(t[0] == s[0]);
        assert(t.skip(1) =~= s.skip(1).update(i - 1, (s.skip(1)[i - 1].0, v)));
        assert(assoc_wf(s.skip(1))) by {
            assert forall|a: int, b: int|
                0 <= a < b < s.skip(1).len() implies (#[trigger] s.skip(1)[a]).0 != (
            #[trigger] s.skip(1)[b]).0 by {
                assert(s.skip(1)[a] == s[a + 1]);
                assert(s.skip(1)[b] == s[b + 1]);
            }
        }
        lemma_assoc_update(s.skip(1), i - 1, v, q);
        assert(s.skip(1)[i - 1] == s[i]);
        if q == s[0].0 {
            assert(assoc_get(t, q) == Some(t[0].1));
            assert(assoc_get(s, q) == Some(s[0].1));
        }
    }
}

/// Finds the entry holding `k`.
pub fn assoc_find<T>(v: &Vec<(u64, T)>, k: u64) -> (r: Option<usize>)
    ensures
        match r {
            Some(i) => 0 <= i < v@.len() && v@[i as int].0 == k,
            None => forall|i: int| 0 <= i < v@.len() ==> (#[trigger] v@[i]).0 != k,
        },
{
    let mut i: usize = 0;
    loop
        invariant
            0 <= i <= v@.len(),
            forall|j: int| 0 <= j < i ==> (#[trigger] v@[j]).0 != k,
        decreases v@.len() - i,
    {
        if i == v.len() {
            return None;
        }
        if v[i].0 == k {
            return Some(i);
        }
        i = i + 1;
    }
}

} // verus!
