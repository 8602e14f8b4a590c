//! Ordered string-keyed property maps.
//!
//! Styles, fonts and format parts carry open-ended attribute sets that the
//! codec stores but never interprets.  The map keeps insertion order, so a
//! document writes back deterministically.

use vstd::prelude::*;

use crate::digits::str_eq;

verus! {

/// The first value bound to `k`, if any.
pub open spec fn map_get(s: Seq<(Seq<char>, Seq<char>)>, k: Seq<char>) -> Option<Seq<char>>
    decreases s.len(),
{
    if s.len() == 0 {
        None
    } else if s[0].0 == k {
        Some(s[0].1)
    } else {
        map_get(s.skip(1), k)
    }
}

/// The binding of `k` replaced in place, or appended when `k` is fresh.
pub open spec fn map_set(s: Seq<(Seq<char>, Seq<char>)>, k: Seq<char>, v: Seq<char>) -> Seq<
    (Seq<char>, Seq<char>),
>
    decreases s.len(),
{
    if s.len() == 0 {
        seq![(k, v)]
    } else if s[0].0 == k {
        seq![(k, v)] + s.skip(1)
    } else {
        seq![s[0]] + map_set(s.skip(1), k, v)
    }
}

/// An insertion-ordered map from attribute names to their values.
#[derive(Debug)]
pub struct AttrMap2 {
    /// The entries, oldest first, each key held once.
    pub entries: Vec<(String, String)>,
}

impl View for AttrMap2 {
    type V = Seq<(Seq<char>, Seq<char>)>;

    open spec fn view(&self) -> Seq<(Seq<char>, Seq<char>)> {
        self.entries@.map_values(|p: (String, String)| (p.0@, p.1@))
    }
}

impl AttrMap2 {
    /// Keys are held at most once.
    pub open spec fn wf(&self) -> bool {
        forall|i: int, j: int|
            0 <= i < j < self@.len() ==> (#[trigger] self@[i]).0 != (#[trigger] self@[j]).0
    }

    /// An empty map.
    pub fn new() -> (r: AttrMap2)
        ensures
            r.wf(),
            r@.len() == 0,
    {
        AttrMap2 { entries: Vec::new() }
    }

    /// How many attributes are set.
    pub fn len(&self) -> (r: usize)
        ensures
            r == self@.len(),
    {
        self.entries.len()
    }

    /// Whether nothing is set.
    pub fn is_empty(&self) -> (r: bool)
        ensures
            r == (self@.len() == 0),
    {
        self.entries.len() == 0
    }

    /// The entry at position `i`.
    pub fn entry(&self, i: usize) -> (r: (&String, &String))
        requires
            i < self@.len(),
        ensures
            r.0@ == self@[i as int].0,
            r.1@ == self@[i as int].1,
    {
        let p = &self.entries[i];
        (&p.0, &p.1)
    }

    /// Binds `k` to `v`, replacing an earlier binding of the same name.
    pub fn set(&mut self, k: String, v: String)
        requires
            old(self).wf(),
        ensures
            final(self).wf(),
            final(self)@ == map_set(old(self)@, k@, v@),
            map_get(final(self)@, k@) == Some(v@),
            forall|k2: Seq<char>|
                k2 != k@ ==> #[trigger] map_get(final(self)@, k2) == map_get(old(self)@, k2),
    {
        let ghost pre = self@;
        proof {
            assert(pre == old(self)@);
        }
        let mut i: usize = 0;
        while i < self.entries.len()
            invariant
                self@ == pre,
                pre == old(self)@,
                old(self).wf(),
                i <= self@.len(),
                forall|j: int| 0 <= j < i ==> (#[trigger] self@[j]).0 != k@,
            decreases self@.len() - i,
        {
            if str_eq(self.entries[i].0.as_str(), k.as_str()) {
                let ghost kk = k@;
                let ghost vv = v@;
                self.entries.set(i, (k, v));
                proof {
                    assert(self@ =~= pre.update(i as int, (kk, vv)));
                    lemma_map_set_update(pre, i as int, kk, vv);
                    lemma_map_get_update(pre, i as int, kk, vv);
                    assert(forall|n: int|
                        0 <= n < pre.len() ==> (#[trigger] self@[n]).0 == pre[n].0);
                    assert forall|a: int, b: int|
                        0 <= a < b < self@.len() implies (#[trigger] self@[a]).0 != (
                    #[trigger] self@[b]).0 by {
                        assert(old(self).wf());
                        assert(old(self)@.len() == self@.len());
                        assert(0 <= a < b < old(self)@.len());
                        assert((old(self)@[a]).0 != (old(self)@[b]).0);
                        assert(self@[a].0 == old(self)@[a].0 && self@[b].0 == old(self)@[b].0);
                    }
                }
                return ;
            }
            i += 1;
        }
        let ghost kk = k@;
        let ghost vv = v@;
        self.entries.push((k, v));
        proof {
            assert(self@ =~= pre.push((kk, vv)));
            lemma_map_set_append(pre, kk, vv);
            lemma_map_get_append(pre, kk, vv);
            assert(forall|n: int| 0 <= n < pre.len() ==> (#[trigger] self@[n]).0 == pre[n].0);
            assert(self@[pre.len() as int].0 == kk);
            assert forall|a: int, b: int|
                0 <= a < b < self@.len() implies (#[trigger] self@[a]).0 != (
            #[trigger] self@[b]).0 by {
                if b < pre.len() {
                    assert((old(self)@[a]).0 != (old(self)@[b]).0);
                } else {
                    assert(pre[a].0 != kk);
                }
            }
        }
    }

    /// The value bound to `k`, if any.
    pub fn get(&self, k: &str) -> (r: Option<&String>)
        ensures
            match r {
                Some(v) => map_get(self@, k@) == Some(v@),
                None => map_get(self@, k@) is None,
            },
    {
        let mut i: usize = 0;
        while i < self.entries.len()
            invariant
                i <= self@.len(),
                forall|j: int| 0 <= j < i ==> (#[trigger] self@[j]).0 != k@,
            decreases self@.len() - i,
        {
            if str_eq(self.entries[i].0.as_str(), k) {
                proof {
                    lemma_map_get_at(self@, i as int);
                }
                return Some(&self.entries[i].1);
            }
            i += 1;
        }
        proof {
            lemma_map_get_none(self@, k@);
        }
        None
    }

    /// A copy of the map.
    pub fn duplicate(&self) -> (r: AttrMap2)
        ensures
            r@ == self@,
    {
        let mut out: Vec<(String, String)> = Vec::new();
        let mut i: usize = 0;
        while i < self.entries.len()
            invariant
                i <= self.entries@.len(),
                out@.len() == i,
                forall|j: int|
                    0 <= j < i ==> (#[trigger] out@[j]).0@ == self.entries@[j].0@ && out@[j].1@
                        == self.entries@[j].1@,
            decreases self.entries@.len() - i,
        {
            let p = &self.entries[i];
            out.push((p.0.clone(), p.1.clone()));
            i += 1;
        }
        let r = AttrMap2 { entries: out };
        proof {
            assert(r@ =~= self@);
        }
        r
    }
}

/// Replacing the first binding in place is what `map_set` does when the
/// key is already held.
proof fn lemma_map_set_update(s: Seq<(Seq<char>, Seq<char>)>, i: int, k: Seq<char>, v: Seq<char>)
    requires
        0 <= i < s.len(),
        s[i].0 == k,
        forall|j: int| 0 <= j < i ==> (#[trigger] s[j]).0 != k,
    ensures
        map_set(s, k, v) == s.update(i, (k, v)),
    decreases i,
{
    if i == 0 {
        assert(map_set(s, k, v) =~= s.update(0, (k, v)));
    } else {
        assert(s[0].0 != k);
        assert(forall|j: int| 0 <= j < i - 1 ==> (#[trigger] s.skip(1)[j]).0 != k);
        lemma_map_set_update(s.skip(1), i - 1, k, v);
        assert(seq![s[0]] + s.skip(1).update(i - 1, (k, v)) =~= s.update(i, (k, v)));
    }
}

/// Appending is what `map_set` does when the key is fresh.
proof fn lemma_map_set_append(s: Seq<(Seq<char>, Seq<char>)>, k: Seq<char>, v: Seq<char>)
    requires
        forall|j: int| 0 <= j < s.len() ==> (#[trigger] s[j]).0 != k,
    ensures
        map_set(s, k, v) == s.push((k, v)),
    decreases s.len(),
{
    if s.len() == 0 {
        assert(map_set(s, k, v) =~= s.push((k, v)));
    } else {
        assert(forall|j: int| 0 <= j < s.skip(1).len() ==> (#[trigger] s.skip(1)[j]).0 != k);
        lemma_map_set_append(s.skip(1), k, v);
        assert(seq![s[0]] + s.skip(1).push((k, v)) =~= s.push((k, v)));
    }
}

/// Looking a key up after binding it at a position it already held.
proof fn lemma_map_get_update(s: Seq<(Seq<char>, Seq<char>)>, i: int, k: Seq<char>, v: Seq<char>)
    requires
        0 <= i < s.len(),
        s[i].0 == k,
        forall|j: int| 0 <= j < i ==> (#[trigger] s[j]).0 != k,
    ensures
        map_get(s.update(i, (k, v)), k) == Some(v),
        forall|k2: Seq<char>| k2 != k ==> #[trigger] map_get(s.update(i, (k, v)), k2) == map_get(
            s,
            k2,
        ),
    decreases i,
{
    if i == 0 {
        assert(s.update(0, (k, v))[0] == (k, v));
        assert forall|k2: Seq<char>| k2 != k implies #[trigger] map_get(s.update(0, (k, v)), k2)
            == map_get(s, k2) by {
            reveal_with_fuel(map_get, 3);
            assert(s.update(0, (k, v)).skip(1) =~= s.skip(1));
            assert(s[0].0 == k);
        }
    } else {
        assert(s.update(i, (k, v)).skip(1) =~= s.skip(1).update(i - 1, (k, v)));
        assert(forall|j: int| 0 <= j < i - 1 ==> (#[trigger] s.skip(1)[j]).0 != k);
        lemma_map_get_update(s.skip(1), i - 1, k, v);
        assert(s.update(i, (k, v))[0] == s[0]);
        assert(s[0].0 != k);
        assert forall|k2: Seq<char>| k2 != k implies #[trigger] map_get(s.update(i, (k, v)), k2)
            == map_get(s, k2) by {
            reveal_with_fuel(map_get, 2);
            if s[0].0 != k2 {
                assert(map_get(s.update(i, (k, v)), k2) == map_get(
                    s.skip(1).update(i - 1, (k, v)),
                    k2,
                ));
                assert(map_get(s, k2) == map_get(s.skip(1), k2));
            }
        }
        assert(map_get(s.update(i, (k, v)), k) == Some(v)) by {
            reveal_with_fuel(map_get, 2);
            assert(map_get(s.update(i, (k, v)), k) == map_get(s.skip(1).update(i - 1, (k, v)), k));
        }
    }
}

/// Looking a key up after appending a fresh binding.
proof fn lemma_map_get_append(s: Seq<(Seq<char>, Seq<char>)>, k: Seq<char>, v: Seq<char>)
    requires
        forall|j: int| 0 <= j < s.len() ==> (#[trigger] s[j]).0 != k,
    ensures
        map_get(s.push((k, v)), k) == Some(v),
        forall|k2: Seq<char>|
            k2 != k ==> #[trigger] map_get(s.push((k, v)), k2) == map_get(s, k2),
    decreases s.len(),
{
    if s.len() == 0 {
        assert(s.push((k, v))[0] == (k, v));
        assert forall|k2: Seq<char>| k2 != k implies #[trigger] map_get(s.push((k, v)), k2)
            == map_get(s, k2) by {
            reveal_with_fuel(map_get, 3);
            assert(s.push((k, v)).skip(1) =~= Seq::<(Seq<char>, Seq<char>)>::empty());
        }
    } else {
        assert(s.push((k, v)).skip(1) =~= s.skip(1).push((k, v)));
        assert(forall|j: int| 0 <= j < s.skip(1).len() ==> (#[trigger] s.skip(1)[j]).0 != k);
        lemma_map_get_append(s.skip(1), k, v);
        assert(s.push((k, v))[0] == s[0]);
        assert(s[0].0 != k);
        assert forall|k2: Seq<char>| k2 != k implies #[trigger] map_get(s.push((k, v)), k2)
            == map_get(s, k2) by {
            reveal_with_fuel(map_get, 2);
            if s[0].0 != k2 {
                assert(map_get(s.push((k, v)), k2) == map_get(s.skip(1).push((k, v)), k2));
                assert(map_get(s, k2) == map_get(s.skip(1), k2));
            }
        }
        assert(map_get(s.push((k, v)), k) == Some(v)) by {
            reveal_with_fuel(map_get, 2);
            assert(map_get(s.push((k, v)), k) == map_get(s.skip(1).push((k, v)), k));
        }
    }
}

/// The first match wins: a key found at `i` with no earlier match is the
/// key's binding.
pub proof fn lemma_map_get_at(s: Seq<(Seq<char>, Seq<char>)>, i: int)
    requires
        0 <= i < s.len(),
        forall|j: int| 0 <= j < i ==> (#[trigger] s[j]).0 != s[i].0,
    ensures
        map_get(s, s[i].0) == Some(s[i].1),
    decreases i,
{
    if i > 0 {
        assert(forall|j: int| 0 <= j < i - 1 ==> (#[trigger] s.skip(1)[j]).0 != s[i].0);
        assert(s.skip(1)[i - 1] == s[i]);
        lemma_map_get_at(s.skip(1), i - 1);
    }
}

/// A key matching no entry is unbound.
pub proof fn lemma_map_get_none(s: Seq<(Seq<char>, Seq<char>)>, k: Seq<char>)
    requires
        forall|j: int| 0 <= j < s.len() ==> (#[trigger] s[j]).0 != k,
    ensures
        map_get(s, k) is None,
    decreases s.len(),
{
    if s.len() > 0 {
        assert(forall|j: int| 0 <= j < s.skip(1).len() ==> (#[trigger] s.skip(1)[j]).0 != k);
        lemma_map_get_none(s.skip(1), k);
    }
}

} // verus!
