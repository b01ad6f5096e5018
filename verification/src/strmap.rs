//! A small map from text to values, kept as an association list.

use vstd::prelude::*;

use crate::json;
use crate::text;

verus! {

/// A map from text to values. Where a key stands twice in the list, the first
/// entry counts.
pub struct StrMap<T> {
    pub entries: Vec<(String, T)>,
}

/// The map that a list of entries stands for.
pub open spec fn map_of<T: DeepView>(s: Seq<(String, T)>) -> Map<Seq<char>, T::V>
    decreases s.len(),
{
    if s.len() == 0 {
        Map::empty()
    } else {
        map_of(s.drop_first()).insert(s[0].0@, s[0].1.deep_view())
    }
}

proof fn lemma_found<T: DeepView>(s: Seq<(String, T)>, i: int)
    requires
        0 <= i < s.len(),
        forall|k: int| 0 <= k < i ==> (#[trigger] s[k]).0@ != s[i].0@,
    ensures
        map_of(s).contains_key(s[i].0@),
        map_of(s)[s[i].0@] == s[i].1.deep_view(),
    decreases i,
{
    if i > 0 {
        let t = s.drop_first();
        assert forall|k: int| 0 <= k < i - 1 implies (#[trigger] t[k]).0@ != t[i - 1].0@ by {
            assert(t[k] == s[k + 1]);
        }
        assert(s[0].0@ != s[i].0@);
        lemma_found(t, i - 1);
        assert(t[i - 1] == s[i]);
    }
}

proof fn lemma_missing<T: DeepView>(s: Seq<(String, T)>, key: Seq<char>)
    requires
        forall|k: int| 0 <= k < s.len() ==> (#[trigger] s[k]).0@ != key,
    ensures
        !map_of(s).contains_key(key),
    decreases s.len(),
{
    if s.len() > 0 {
        let t = s.drop_first();
        assert forall|k: int| 0 <= k < t.len() implies (#[trigger] t[k]).0@ != key by {
            assert(t[k] == s[k + 1]);
        }
        assert(s[0].0@ != key);
        lemma_missing(t, key);
    }
}

proof fn lemma_push<T: DeepView>(s: Seq<(String, T)>, e: (String, T))
    ensures
        map_of(s.push(e)) == if map_of(s).contains_key(e.0@) {
            map_of(s)
        } else {
            map_of(s).insert(e.0@, e.1.deep_view())
        },
    decreases s.len(),
{
    let p = s.push(e);
    if s.len() == 0 {
        assert(p.drop_first() =~= Seq::<(String, T)>::empty());
        assert(map_of(p.drop_first()) == Map::<Seq<char>, T::V>::empty());
        assert(map_of(p) =~= map_of(s).insert(e.0@, e.1.deep_view()));
    } else {
        assert(p.drop_first() =~= s.drop_first().push(e));
        lemma_push(s.drop_first(), e);
        assert(p[0] == s[0]);
        if map_of(s).contains_key(e.0@) {
            assert(map_of(p) =~= map_of(s));
        } else {
            assert(map_of(p) =~= map_of(s).insert(e.0@, e.1.deep_view()));
        }
    }
}

proof fn lemma_update<T: DeepView>(s: Seq<(String, T)>, i: int, e: (String, T))
    requires
        0 <= i < s.len(),
        s[i].0@ == e.0@,
        forall|k: int| 0 <= k < i ==> (#[trigger] s[k]).0@ != e.0@,
    ensures
        map_of(s.update(i, e)) == map_of(s).insert(e.0@, e.1.deep_view()),
    decreases i,
{
    let u = s.update(i, e);
    if i == 0 {
        assert(u.drop_first() =~= s.drop_first());
        assert(map_of(u) =~= map_of(s).insert(e.0@, e.1.deep_view()));
    } else {
        let t = s.drop_first();
        assert(u.drop_first() =~= t.update(i - 1, e));
        assert forall|k: int| 0 <= k < i - 1 implies (#[trigger] t[k]).0@ != e.0@ by {
            assert(t[k] == s[k + 1]);
        }
        lemma_update(t, i - 1, e);
        assert(s[0].0@ != e.0@);
        assert(u[0] == s[0]);
        assert(map_of(u) =~= map_of(s).insert(e.0@, e.1.deep_view()));
    }
}

proof fn lemma_delete<T: DeepView>(s: Seq<(String, T)>, i: int, key: Seq<char>)
    requires
        0 <= i < s.len(),
        s[i].0@ == key,
    ensures
        map_of(s.remove(i)).remove(key) == map_of(s).remove(key),
    decreases i,
{
    if i == 0 {
        assert(s.remove(0) =~= s.drop_first());
        assert(map_of(s.remove(0)).remove(key) =~= map_of(s).remove(key));
    } else {
        assert(s.remove(i).drop_first() =~= s.drop_first().remove(i - 1));
        assert(s.remove(i)[0] == s[0]);
        lemma_delete(s.drop_first(), i - 1, key);
        assert(map_of(s.remove(i)).remove(key) =~= map_of(s.drop_first().remove(i - 1)).remove(
            key,
        ).insert(s[0].0@, s[0].1.deep_view()).remove(key));
        assert(map_of(s).remove(key) =~= map_of(s.drop_first()).remove(key).insert(
            s[0].0@,
            s[0].1.deep_view(),
        ).remove(key));
    }
}

/// The keys of the map are the keys of the entries.
proof fn lemma_keys<T: DeepView>(s: Seq<(String, T)>, key: Seq<char>)
    ensures
        map_of(s).contains_key(key) <==> exists|j: int|
            0 <= j < s.len() && (#[trigger] s[j]).0@ == key,
    decreases s.len(),
{
    if s.len() > 0 {
        let t = s.drop_first();
        lemma_keys(t, key);
        if map_of(t).contains_key(key) {
            let j = choose|j: int| 0 <= j < t.len() && (#[trigger] t[j]).0@ == key;
            assert(s[j + 1].0@ == key);
        }
        if exists|j: int| 0 <= j < s.len() && (#[trigger] s[j]).0@ == key {
            let j = choose|j: int| 0 <= j < s.len() && (#[trigger] s[j]).0@ == key;
            if j > 0 {
                assert(t[j - 1].0@ == key);
            }
        }
    }
}

impl<T: DeepView> StrMap<T> {
    /// The map, over the values' models.
    pub open spec fn view(&self) -> Map<Seq<char>, T::V> {
        map_of(self.entries@)
    }

    /// The empty map.
    pub fn new() -> (r: StrMap<T>)
        ensures
            r@ == Map::<Seq<char>, T::V>::empty(),
    {
        StrMap { entries: Vec::new() }
    }

    /// Where the entry that counts for a key is, or the number of entries.
    pub fn position(&self, key: &str) -> (r: usize)
        ensures
            r <= self.entries@.len(),
            r < self.entries@.len() ==> self.entries@[r as int].0@ == key@,
            forall|k: int| 0 <= k < r ==> (#[trigger] self.entries@[k]).0@ != key@,
            r < self.entries@.len() <==> self@.contains_key(key@),
            r < self.entries@.len() ==> self@[key@] == self.entries@[r as int].1.deep_view(),
    {
        let mut i: usize = 0;
        while i < self.entries.len()
            invariant
                i <= self.entries@.len(),
                forall|k: int| 0 <= k < i ==> (#[trigger] self.entries@[k]).0@ != key@,
            decreases self.entries@.len() - i,
        {
            if text::str_eq(self.entries[i].0.as_str(), key) {
                proof {
                    lemma_found(self.entries@, i as int);
                }
                return i;
            }
            i = i + 1;
        }
        proof {
            lemma_missing(self.entries@, key@);
        }
        i
    }

    /// The value under a key.
    pub fn get(&self, key: &str) -> (r: Option<&T>)
        ensures
            match r {
                Some(v) => self@.contains_key(key@) && self@[key@] == v.deep_view(),
                None => !self@.contains_key(key@),
            },
    {
        let i: usize = self.position(key);
        if i < self.entries.len() {
            Some(&self.entries[i].1)
        } else {
            None
        }
    }

    /// Whether there is a value under a key.
    pub fn contains(&self, key: &str) -> (r: bool)
        ensures
            r == self@.contains_key(key@),
    {
        self.position(key) < self.entries.len()
    }

    /// The keys of the map, each once.
    pub fn keys(&self) -> (r: Vec<String>)
        ensures
            json::arranges(r.deep_view(), self@.dom()),
    {
        let entries = &self.entries;
        let mut out: Vec<String> = Vec::new();
        let mut i: usize = 0;
        while i < entries.len()
            invariant
                i <= entries@.len(),
                *entries == self.entries,
                out.deep_view().no_duplicates(),
                forall|k: Seq<char>| #[trigger]
                    out.deep_view().contains(k) <==> exists|j: int|
                        0 <= j < i && (#[trigger] entries@[j]).0@ == k,
            decreases entries@.len() - i,
        {
            let ghost before = out.deep_view();
            let first: usize = self.position(entries[i].0.as_str());
            if first == i {
                out.push(entries[i].0.clone());
                assert(out.deep_view() =~= before.push(entries@[i as int].0@));
                assert forall|k: Seq<char>| #[trigger]
                    out.deep_view().contains(k) <==> exists|j: int|
                        0 <= j < i + 1 && (#[trigger] entries@[j]).0@ == k by {
                    if out.deep_view().contains(k) {
                        let n = choose|n: int|
                            0 <= n < out.deep_view().len() && out.deep_view()[n] == k;
                        if n < before.len() {
                            assert(before[n] == k);
                            assert(before.contains(k));
                        } else {
                            assert(entries@[i as int].0@ == k);
                        }
                    }
                    if exists|j: int| 0 <= j < i + 1 && (#[trigger] entries@[j]).0@ == k {
                        let j = choose|j: int| 0 <= j < i + 1 && (#[trigger] entries@[j]).0@ == k;
                        if j < i {
                            assert(before.contains(k));
                            let n = choose|n: int| 0 <= n < before.len() && before[n] == k;
                            assert(out.deep_view()[n] == k);
                        } else {
                            assert(out.deep_view()[before.len() as int] == k);
                        }
                    }
                }
                assert(!before.contains(entries@[i as int].0@));
            }
            i = i + 1;
        }
        assert forall|k: Seq<char>| #[trigger]
            out.deep_view().contains(k) <==> self@.dom().contains(k) by {
            lemma_keys(entries@, k);
        }
        out
    }

    /// Every key of the map has an entry that counts.
    pub proof fn lemma_entry_of(&self, key: Seq<char>)
        requires
            self@.contains_key(key),
        ensures
            exists|j: int|
                0 <= j < self.entries@.len() && (#[trigger] self.entries@[j]).0@ == key,
    {
        lemma_keys(self.entries@, key);
    }

    /// Sets the value under a key.
    pub fn insert(&mut self, key: &str, value: T)
        ensures
            final(self)@ == old(self)@.insert(key@, value.deep_view()),
    {
        let i: usize = self.position(key);
        let e = (key.to_string(), value);
        if i < self.entries.len() {
            proof {
                lemma_update(self.entries@, i as int, e);
            }
            self.entries[i] = e;
        } else {
            proof {
                lemma_push(self.entries@, e);
            }
            self.entries.push(e);
        }
    }

    /// Removes the value under a key.
    pub fn remove(&mut self, key: &str)
        ensures
            final(self)@ == old(self)@.remove(key@),
    {
        let ghost before = self@;
        loop
            invariant
                self@.remove(key@) == before.remove(key@),
            ensures
                self@ == before.remove(key@),
            decreases self.entries@.len(),
        {
            let i: usize = self.position(key);
            if i < self.entries.len() {
                proof {
                    lemma_delete(self.entries@, i as int, key@);
                }
                self.entries.remove(i);
            } else {
                assert(self@.remove(key@) =~= self@);
                break;
            }
        }
    }
}

} // verus!
