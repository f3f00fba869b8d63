//! Association sequences keyed by `String`, compared by their character
//! sequences, with first-match lookup.  The localization maps are small
//! vectors of key/value pairs with distinct keys; these are their lookup
//! spec and lemmas, the string-keyed mirror of the `u64`-keyed ones.

use vstd::prelude::*;

verus! {

/// The value bound to the key spelled `k`, if any: the first entry wins.
pub open spec fn str_get<V>(s: Seq<(String, V)>, k: Seq<char>) -> Option<V>
    decreases s.len(),
{
    if s.len() == 0 {
        None
    } else if s[0].0@ == k {
        Some(s[0].1)
    } else {
        str_get(s.skip(1), k)
    }
}

/// No key spelling appears twice.
pub open spec fn str_wf<V>(s: Seq<(String, V)>) -> bool {
    forall|i: int, j: int|
        0 <= i < j < s.len() ==> (#[trigger] s[i]).0@ != (#[trigger] s[j]).0@
}

/// With distinct keys, any entry holding the spelling gives the lookup's
/// answer.
pub proof fn lemma_str_get_at<V>(s: Seq<(String, V)>, i: int)
    requires
        str_wf(s),
        0 <= i < s.len(),
    ensures
        str_get(s, s[i].0@) == Some(s[i].1),
    decreases s.len(),
{
    reveal_with_fuel(str_get, 3);
    if i > 0 {
        assert(s[0].0@ != s[i].0@);
        assert(s.skip(1)[i - 1] == s[i]);
        assert(str_wf(s.skip(1))) by {
            assert forall|a: int, b: int|
                0 <= a < b < s.skip(1).len() implies (#[trigger] s.skip(1)[a]).0@ != (
            #[trigger] s.skip(1)[b]).0@ by {
                assert(s.skip(1)[a] == s[a + 1]);
                assert(s.skip(1)[b] == s[b + 1]);
            }
        }
        lemma_str_get_at(s.skip(1), i - 1);
    }
}

/// An absent spelling appears in no entry.
pub proof fn lemma_str_get_none<V>(s: Seq<(String, V)>, k: Seq<char>)
    ensures
        str_get(s, k) is None <==> forall|i: int| 0 <= i < s.len() ==> (#[trigger] s[i]).0@ != k,
    decreases s.len(),
{
    reveal_with_fuel(str_get, 3);
    if s.len() > 0 {
        lemma_str_get_none(s.skip(1), k);
        assert forall|i: int| 0 <= i < s.skip(1).len() implies s.skip(1)[i] == s[i + 1] by {}
        if s[0].0@ != k && str_get(s, k) is None {
            assert forall|i: int| 0 <= i < s.len() implies (#[trigger] s[i]).0@ != k by {
                if i > 0 {
                    assert(s.skip(1)[i - 1] == s[i]);
                }
            }
        }
    }
}

/// Appending a fresh spelling binds it and nothing else.
pub proof fn lemma_str_push<V>(s: Seq<(String, V)>, kv: (String, V), q: Seq<char>)
    requires
        str_get(s, kv.0@) is None,
    ensures
        str_get(s.push(kv), q) == (if q == kv.0@ {
            Some(kv.1)
        } else {
            str_get(s, q)
        }),
        str_wf(s) ==> str_wf(s.push(kv)),
    decreases s.len(),
{
    reveal_with_fuel(str_get, 3);
    lemma_str_get_none(s, kv.0@);
    if s.len() == 0 {
        assert(s.push(kv)[0] == kv);
        if q != kv.0@ {
            assert(s.push(kv).skip(1) =~= Seq::<(String, V)>::empty());
        }
    } else {
        assert(s[0].0@ != kv.0@);
        assert(s.push(kv)[0] == s[0]);
        assert(s.push(kv).skip(1) =~= s.skip(1).push(kv));
        lemma_str_push(s.skip(1), kv, q);
        if s[0].0@ == q {
            assert(str_get(s.push(kv), q) == Some(s[0].1));
            assert(str_get(s, q) == Some(s[0].1));
        }
    }
    if str_wf(s) {
        assert forall|a: int, b: int|
            0 <= a < b < s.push(kv).len() implies (#[trigger] s.push(kv)[a]).0@ != (
        #[trigger] s.push(kv)[b]).0@ by {
            if b < s.len() {
                assert(s.push(kv)[a] == s[a]);
                assert(s.push(kv)[b] == s[b]);
            } else {
                assert(s.push(kv)[a] == s[a]);
                assert(s.push(kv)[b] == kv);
            }
        }
    }
}

/// Updating an entry in place, keeping its key, rebinds that spelling and
/// nothing else.
pub proof fn lemma_str_update<V>(s: Seq<(String, V)>, i: int, kv: (String, V), q: Seq<char>)
    requires
        str_wf(s),
        0 <= i < s.len(),
        kv.0@ == s[i].0@,
    ensures
        str_get(s.update(i, kv), q) == (if q == s[i].0@ {
            Some(kv.1)
        } else {
            str_get(s, q)
        }),
        str_wf(s.update(i, kv)),
    decreases s.len(),
{
    reveal_with_fuel(str_get, 3);
    let t = s.update(i, kv);
    assert forall|a: int, b: int|
        0 <= a < b < t.len() implies (#[trigger] t[a]).0@ != (#[trigger] t[b]).0@ by {
        assert(t[a].0@ == s[a].0@);
        assert(t[b].0@ == s[b].0@);
    }
    if i == 0 {
        if q != s[0].0@ {
            assert(t.skip(1) =~= s.skip(1));
        }
    } else {
        assert(t[0] == s[0]);
        assert(t.skip(1) =~= s.skip(1).update(i - 1, kv));
        assert(str_wf(s.skip(1))) by {
            assert forall|a: int, b: int|
                0 <= a < b < s.skip(1).len() implies (#[trigger] s.skip(1)[a]).0@ != (
            #[trigger] s.skip(1)[b]).0@ by {
                assert(s.skip(1)[a] == s[a + 1]);
                assert(s.skip(1)[b] == s[b + 1]);
            }
        }
        assert(s.skip(1)[i - 1] == s[i]);
        lemma_str_update(s.skip(1), i - 1, kv, q);
        if s[0].0@ == q {
            assert(str_get(t, q) == Some(t[0].1));
            assert(str_get(s, q) == Some(s[0].1));
        }
    }
}

/// With distinct keys, looking a spelling up in one more entry of a
/// prefix either finds that entry's value or falls back to the prefix.
pub proof fn lemma_str_take_snoc<V>(s: Seq<(String, V)>, i: int, q: Seq<char>)
    requires
        str_wf(s),
        0 <= i < s.len(),
    ensures
        str_get(s.take(i + 1), q) == (if q == s[i].0@ {
            Some(s[i].1)
        } else {
            str_get(s.take(i), q)
        }),
        str_wf(s.take(i)),
        str_wf(s.take(i + 1)),
{
    assert(str_wf(s.take(i))) by {
        assert forall|a: int, b: int|
            0 <= a < b < s.take(i).len() implies (#[trigger] s.take(i)[a]).0@ != (
        #[trigger] s.take(i)[b]).0@ by {
            assert(s.take(i)[a] == s[a]);
            assert(s.take(i)[b] == s[b]);
        }
    }
    assert(str_get(s.take(i), s[i].0@) is None) by {
        lemma_str_get_none(s.take(i), s[i].0@);
        assert forall|j: int| 0 <= j < s.take(i).len() implies (#[trigger] s.take(i)[j]).0@
            != s[i].0@ by {
            assert(s.take(i)[j] == s[j]);
        }
    }
    assert(s.take(i + 1) =~= s.take(i).push(s[i]));
    lemma_str_push(s.take(i), s[i], q);
}

/// Finds the entry whose key is spelled like `k`.
pub fn str_find<V>(v: &Vec<(String, V)>, k: &String) -> (r: Option<usize>)
    ensures
        match r {
            Some(i) => 0 <= i < v@.len() && v@[i as int].0@ == k@,
            None => forall|i: int| 0 <= i < v@.len() ==> (#[trigger] v@[i]).0@ != k@,
        },
{
    let mut i: usize = 0;
    loop
        invariant
            0 <= i <= v@.len(),
            forall|j: int| 0 <= j < i ==> (#[trigger] v@[j]).0@ != k@,
        decreases v@.len() - i,
    {
        if i == v.len() {
            return None;
        }
        if v[i].0.eq(k) {
            return Some(i);
        }
        i = i + 1;
    }
}

} // verus!
