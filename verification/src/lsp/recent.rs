//! File changes that a server was told of a moment ago.
//!
//! An editor's save and the platform's file watcher commonly report the same
//! change twice within a fraction of a second.

use vstd::prelude::*;

use crate::text;

verus! {

/// A change to a file: 1 = created, 2 = changed, 3 = deleted.
pub struct FileChange {
    pub uri: String,
    pub change_type: u32,
}

impl DeepView for FileChange {
    type V = (Seq<char>, u32);

    open spec fn deep_view(&self) -> (Seq<char>, u32) {
        (self.uri@, self.change_type)
    }
}

impl FileChange {
    /// A change that is the same as this one.
    pub fn copy(&self) -> (r: FileChange)
        ensures
            r.deep_view() == self.deep_view(),
    {
        FileChange { uri: self.uri.clone(), change_type: self.change_type }
    }

    fn same(&self, other: &FileChange) -> (r: bool)
        ensures
            r == (self.deep_view() == other.deep_view()),
    {
        self.change_type == other.change_type && text::str_eq(
            self.uri.as_str(),
            other.uri.as_str(),
        )
    }
}

/// Changes, each with the time in nanoseconds at which it was last passed on.
pub struct RecentChanges {
    pub entries: Vec<(FileChange, u64)>,
}

/// The times that a list of entries stands for; the first entry of a change
/// counts.
pub open spec fn times_of(s: Seq<(FileChange, u64)>) -> Map<(Seq<char>, u32), u64>
    decreases s.len(),
{
    if s.len() == 0 {
        Map::empty()
    } else {
        times_of(s.drop_first()).insert(s[0].0.deep_view(), s[0].1)
    }
}

proof fn lemma_times_push(s: Seq<(FileChange, u64)>, e: (FileChange, u64))
    ensures
        times_of(s.push(e)) == if times_of(s).contains_key(e.0.deep_view()) {
            times_of(s)
        } else {
            times_of(s).insert(e.0.deep_view(), e.1)
        },
    decreases s.len(),
{
    let p = s.push(e);
    if s.len() == 0 {
        assert(p.drop_first() =~= Seq::<(FileChange, u64)>::empty());
        assert(times_of(p.drop_first()) == Map::<(Seq<char>, u32), u64>::empty());
        assert(times_of(p) =~= times_of(s).insert(e.0.deep_view(), e.1));
    } else {
        assert(p.drop_first() =~= s.drop_first().push(e));
        lemma_times_push(s.drop_first(), e);
        assert(p[0] == s[0]);
        if times_of(s).contains_key(e.0.deep_view()) {
            assert(times_of(p) =~= times_of(s));
        } else {
            assert(times_of(p) =~= times_of(s).insert(e.0.deep_view(), e.1));
        }
    }
}

/// The changes that were passed on less than a span of time ago.
pub open spec fn recent_within(
    times: Map<(Seq<char>, u32), u64>,
    now: u64,
    span: u64,
) -> Map<(Seq<char>, u32), u64> {
    Map::new(
        |k: (Seq<char>, u32)| times.contains_key(k) && elapsed(times[k], now) < span,
        |k: (Seq<char>, u32)| times[k],
    )
}

/// The time that has passed since an earlier point; none where that point lies
/// ahead.
pub open spec fn elapsed(since: u64, now: u64) -> int {
    if now >= since {
        now - since
    } else {
        0
    }
}

/// Whether a change was passed on less than a span of time ago.
pub open spec fn just_seen(
    times: Map<(Seq<char>, u32), u64>,
    change: (Seq<char>, u32),
    now: u64,
    span: u64,
) -> bool {
    times.contains_key(change) && elapsed(times[change], now) < span
}

impl RecentChanges {
    /// When each change was last passed on.
    pub open spec fn view(&self) -> Map<(Seq<char>, u32), u64> {
        times_of(self.entries@)
    }

    /// No changes.
    pub fn new() -> (r: RecentChanges)
        ensures
            r@ == Map::<(Seq<char>, u32), u64>::empty(),
    {
        RecentChanges { entries: Vec::new() }
    }

    /// When a change was last passed on.
    pub fn time_of(&self, change: &FileChange) -> (r: Option<u64>)
        ensures
            match r {
                Some(t) => self@.contains_key(change.deep_view()) && self@[change.deep_view()] == t,
                None => !self@.contains_key(change.deep_view()),
            },
    {
        let ghost key = change.deep_view();
        let mut i: usize = 0;
        assert(self.entries@.skip(0) =~= self.entries@);
        while i < self.entries.len()
            invariant
                i <= self.entries@.len(),
                key == change.deep_view(),
                self@.contains_key(key) == times_of(self.entries@.skip(i as int)).contains_key(key),
                self@.contains_key(key) ==> self@[key] == times_of(
                    self.entries@.skip(i as int),
                )[key],
            decreases self.entries@.len() - i,
        {
            assert(self.entries@.skip(i as int).drop_first() =~= self.entries@.skip(i + 1));
            if self.entries[i].0.same(change) {
                return Some(self.entries[i].1);
            }
            i = i + 1;
        }
        None
    }

    /// Notes that a change is passed on now.
    pub fn note(&mut self, change: &FileChange, now: u64)
        ensures
            final(self)@ == old(self)@.insert(change.deep_view(), now),
    {
        let ghost before = self@;
        let mut entries: Vec<(FileChange, u64)> = Vec::new();
        entries.push((change.copy(), now));
        let ghost key = change.deep_view();
        proof {
            assert(entries@.drop_first() =~= Seq::<(FileChange, u64)>::empty());
            assert(self.entries@.take(0) =~= Seq::<(FileChange, u64)>::empty());
            assert(times_of(entries@) =~= times_of(self.entries@.take(0)).insert(key, now));
        }
        let mut i: usize = 0;
        while i < self.entries.len()
            invariant
                i <= self.entries@.len(),
                times_of(entries@) == times_of(self.entries@.take(i as int)).insert(key, now),
            decreases self.entries@.len() - i,
        {
            let e = (self.entries[i].0.copy(), self.entries[i].1);
            proof {
                lemma_times_push(entries@, e);
                lemma_times_push(self.entries@.take(i as int), self.entries@[i as int]);
                assert(self.entries@.take(i + 1) =~= self.entries@.take(i as int).push(
                    self.entries@[i as int],
                ));
            }
            entries.push(e);
            assert(times_of(entries@) =~= times_of(self.entries@.take(i + 1)).insert(key, now));
            i = i + 1;
        }
        assert(self.entries@.take(i as int) =~= self.entries@);
        self.entries = entries;
    }

    /// Forgets the changes that were passed on a span of time ago or longer.
    pub fn keep_within(&mut self, now: u64, span: u64)
        ensures
            final(self)@ == recent_within(old(self)@, now, span),
    {
        let ghost before = self@;
        let mut entries: Vec<(FileChange, u64)> = Vec::new();
        let mut seen = RecentChanges::new();
        let mut i: usize = 0;
        proof {
            assert(self.entries@.take(0) =~= Seq::<(FileChange, u64)>::empty());
            assert(times_of(entries@) =~= recent_within(seen@, now, span));
        }
        while i < self.entries.len()
            invariant
                i <= self.entries@.len(),
                seen@ == times_of(self.entries@.take(i as int)),
                times_of(entries@) == recent_within(seen@, now, span),
            decreases self.entries@.len() - i,
        {
            let e = (self.entries[i].0.copy(), self.entries[i].1);
            let known = seen.time_of(&e.0);
            proof {
                lemma_times_push(entries@, e);
                lemma_times_push(self.entries@.take(i as int), self.entries@[i as int]);
                assert(self.entries@.take(i + 1) =~= self.entries@.take(i as int).push(
                    self.entries@[i as int],
                ));
            }
            let twin = (self.entries[i].0.copy(), self.entries[i].1);
            proof {
                lemma_times_push(seen.entries@, twin);
            }
            seen.entries.push(twin);
            let fresh = now < e.1 || now - e.1 < span;
            if known.is_none() && (fresh && span > 0) {
                entries.push(e);
            }
            assert(times_of(entries@) =~= recent_within(seen@, now, span));
            i = i + 1;
        }
        assert(self.entries@.take(i as int) =~= self.entries@);
        self.entries = entries;
    }
}

} // verus!
