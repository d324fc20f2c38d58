//! Counting structures used by the aggregators: a string-keyed counter
//! list with unique keys kept in insertion order, and fixed per-category /
//! per-priority counters.

use vstd::prelude::*;
use crate::text::str_eq;
use crate::types::categories::CategoryType;
use crate::types::priorities::Priority;

verus! {

/// The count stored for `key` in an entry sequence: the first matching
/// entry's count, or 0 when the key is absent.
pub open spec fn spec_count_in(s: Seq<(Seq<char>, usize)>, key: Seq<char>) -> int
    decreases s.len(),
{
    if s.len() == 0 {
        0
    } else if s[0].0 == key {
        s[0].1 as int
    } else {
        spec_count_in(s.drop_first(), key)
    }
}

/// Some entry carries `key`.
pub open spec fn spec_has_key(s: Seq<(Seq<char>, usize)>, key: Seq<char>) -> bool {
    exists|i: int| 0 <= i < s.len() && s[i].0 == key
}

/// A counter keyed by free-text labels. Keys are unique and kept in the
/// order of first insertion; every stored count is at least 1.
#[derive(Debug, Clone)]
pub struct LabelCounts {
    pub entries: Vec<(String, usize)>,
}

impl LabelCounts {
    /// The entries with their strings taken as character sequences.
    pub open spec fn entries_view(self) -> Seq<(Seq<char>, usize)> {
        self.entries.deep_view()
    }

    /// Keys are distinct and counts positive.
    pub open spec fn wf(self) -> bool {
        &&& forall|i: int, j: int|
            0 <= i < j < self.entries_view().len() ==> self.entries_view()[i].0
                != self.entries_view()[j].0
        &&& forall|i: int| 0 <= i < self.entries_view().len() ==> self.entries_view()[i].1 >= 1
    }

    /// The count recorded for `key` (0 when absent).
    pub open spec fn spec_count(self, key: Seq<char>) -> int {
        spec_count_in(self.entries_view(), key)
    }

    /// The labels, in insertion order.
    pub open spec fn labels(self) -> Seq<Seq<char>> {
        self.entries_view().map_values(|p: (Seq<char>, usize)| p.0)
    }

    pub fn new() -> (r: Self)
        ensures
            r.wf(),
            r.entries_view() =~= Seq::empty(),
            forall|k: Seq<char>| r.spec_count(k) == 0,
    {
        let r = LabelCounts { entries: Vec::new() };
        proof {
            assert(r.entries_view() =~= Seq::empty());
        }
        r
    }

    fn find_index(&self, key: &str) -> (r: Option<usize>)
        ensures
            match r {
                Some(i) => i < self.entries_view().len() && self.entries_view()[i as int].0
                    == key@ && forall|j: int| 0 <= j < i ==> self.entries_view()[j].0 != key@,
                None => !spec_has_key(self.entries_view(), key@),
            },
    {
        let n = self.entries.len();
        let mut i: usize = 0;
        while i < n
            invariant
                i <= n,
                n == self.entries@.len(),
                self.entries_view().len() == n,
                forall|j: int| 0 <= j < i ==> self.entries_view()[j].0 != key@,
            decreases n - i,
        {
            if str_eq(self.entries[i].0.as_str(), key) {
                proof {
                    assert(self.entries_view()[i as int].0 == self.entries@[i as int].0@);
                }
                return Some(i);
            }
            proof {
                assert(self.entries_view()[i as int].0 == self.entries@[i as int].0@);
            }
            i += 1;
        }
        None
    }

    /// The count stored for `key`, 0 when the key is absent.
    pub fn get(&self, key: &str) -> (r: usize)
        ensures
            r == self.spec_count(key@),
    {
        match self.find_index(key) {
            Some(i) => {
                proof {
                    lemma_count_at_index(self.entries_view(), key@, i as int);
                }
                self.entries[i].1
            },
            None => {
                proof {
                    lemma_count_absent(self.entries_view(), key@);
                }
                0
            },
        }
    }

    /// Adds 1 to the count of `key`, appending the key with count 1 when it
    /// is new. Every other key keeps its count; the label order gains the
    /// key at the end exactly when it was absent.
    pub fn increment(&mut self, key: &str)
        requires
            old(self).wf(),
            old(self).spec_count(key@) < usize::MAX,
        ensures
            final(self).wf(),
            final(self).spec_count(key@) == old(self).spec_count(key@) + 1,
            forall|k: Seq<char>|
                k != key@ ==> final(self).spec_count(k) == old(self).spec_count(k),
            spec_has_key(old(self).entries_view(), key@) ==> final(self).labels()
                == old(self).labels(),
            !spec_has_key(old(self).entries_view(), key@) ==> final(self).labels()
                == old(self).labels().push(key@),
    {
        match self.find_index(key) {
            Some(i) => {
                proof {
                    lemma_count_at_index(self.entries_view(), key@, i as int);
                }
                let c = self.entries[i].1;
                let k = self.entries[i].0.clone();
                self.entries.set(i, (k, c + 1));
                proof {
                    let s0 = old(self).entries_view();
                    let s1 = self.entries_view();
                    assert(s1 =~= s0.update(i as int, (key@, (c + 1) as usize)));
                    lemma_count_update(s0, i as int, (c + 1) as usize);
                    assert(self.labels() =~= old(self).labels());
                    assert(spec_has_key(s0, key@));
                }
            },
            None => {
                let k = key.to_owned();
                self.entries.push((k, 1));
                proof {
                    let s0 = old(self).entries_view();
                    let s1 = self.entries_view();
                    assert(s1 =~= s0.push((key@, 1usize)));
                    lemma_count_push(s0, key@, 1usize);
                    lemma_count_absent(s0, key@);
                    assert(self.labels() =~= old(self).labels().push(key@));
                    assert forall|i: int, j: int|
                        0 <= i < j < s1.len() implies s1[i].0 != s1[j].0 by {
                        if j == s1.len() - 1 {
                            assert(s1[i].0 == s0[i].0);
                        }
                    }
                }
            },
        }
    }

    /// Records `count` for `key` outright, replacing any previous count.
    pub fn insert(&mut self, key: &str, count: usize)
        requires
            old(self).wf(),
            count >= 1,
        ensures
            final(self).wf(),
            final(self).spec_count(key@) == count,
            forall|k: Seq<char>|
                k != key@ ==> final(self).spec_count(k) == old(self).spec_count(k),
    {
        match self.find_index(key) {
            Some(i) => {
                let k = self.entries[i].0.clone();
                self.entries.set(i, (k, count));
                proof {
                    let s0 = old(self).entries_view();
                    let s1 = self.entries_view();
                    assert(s1 =~= s0.update(i as int, (key@, count)));
                    lemma_count_update(s0, i as int, count);
                }
            },
            None => {
                let k = key.to_owned();
                self.entries.push((k, count));
                proof {
                    let s0 = old(self).entries_view();
                    let s1 = self.entries_view();
                    assert(s1 =~= s0.push((key@, count)));
                    lemma_count_push(s0, key@, count);
                    lemma_count_absent(s0, key@);
                    assert forall|i: int, j: int|
                        0 <= i < j < s1.len() implies s1[i].0 != s1[j].0 by {
                        if j == s1.len() - 1 {
                            assert(s1[i].0 == s0[i].0);
                        }
                    }
                }
            },
        }
    }

    /// The number of distinct labels.
    pub fn len(&self) -> (r: usize)
        ensures
            r == self.entries_view().len(),
    {
        self.entries.len()
    }

    /// A copy of the entries, in insertion order.
    pub fn pairs(&self) -> (r: Vec<(String, usize)>)
        ensures
            r.deep_view() == self.entries_view(),
    {
        let mut out: Vec<(String, usize)> = Vec::new();
        let n = self.entries.len();
        let mut i: usize = 0;
        while i < n
            invariant
                i <= n,
                n == self.entries@.len(),
                out@.len() == i,
                forall|j: int| 0 <= j < i ==> out.deep_view()[j] == self.entries_view()[j],
            decreases n - i,
        {
            let k = self.entries[i].0.clone();
            let c = self.entries[i].1;
            proof {
                assert(k@ == self.entries@[i as int].0@);
                assert(self.entries_view()[i as int] == (
                    self.entries@[i as int].0@,
                    self.entries@[i as int].1,
                ));
            }
            out.push((k, c));
            proof {
                assert forall|j: int|
                    0 <= j < i + 1 implies out.deep_view()[j] == self.entries_view()[j] by {
                    assert(out.deep_view()[j] == out@[j].deep_view());
                    if j == i {
                        assert(out@[j] == (k, c));
                    }
                }
            }
            i += 1;
        }
        proof {
            assert(out.deep_view() =~= self.entries_view());
        }
        out
    }
}

/// When the key sits at the first matching index, the count is that
/// entry's count.
proof fn lemma_count_at_index(s: Seq<(Seq<char>, usize)>, key: Seq<char>, i: int)
    requires
        0 <= i < s.len(),
        s[i].0 == key,
        forall|j: int| 0 <= j < i ==> s[j].0 != key,
    ensures
        spec_count_in(s, key) == s[i].1 as int,
    decreases i,
{
    if i > 0 {
        lemma_count_at_index(s.drop_first(), key, i - 1);
    }
}

/// An absent key counts 0.
proof fn lemma_count_absent(s: Seq<(Seq<char>, usize)>, key: Seq<char>)
    requires
        !spec_has_key(s, key),
    ensures
        spec_count_in(s, key) == 0,
    decreases s.len(),
{
    if s.len() > 0 {
        assert(s[0].0 != key);
        assert forall|i: int|
            0 <= i < s.drop_first().len() implies s.drop_first()[i].0 != key by {
            assert(s.drop_first()[i] == s[i + 1]);
        }
        lemma_count_absent(s.drop_first(), key);
    }
}

/// Updating an entry's count changes only its own key's count, provided
/// that key appears nowhere else.
proof fn lemma_count_update(s: Seq<(Seq<char>, usize)>, i: int, v: usize)
    requires
        0 <= i < s.len(),
        forall|a: int, b: int| 0 <= a < b < s.len() ==> s[a].0 != s[b].0,
    ensures
        spec_count_in(s.update(i, (s[i].0, v)), s[i].0) == v as int,
        forall|k: Seq<char>|
            k != s[i].0 ==> spec_count_in(s.update(i, (s[i].0, v)), k) == spec_count_in(s, k),
    decreases i,
{
    let t = s.update(i, (s[i].0, v));
    if i == 0 {
        assert(t[0].0 == s[i].0);
        assert forall|k: Seq<char>|
            k != s[i].0 implies spec_count_in(t, k) == spec_count_in(s, k) by {
            assert(t.drop_first() =~= s.drop_first());
        }
    } else {
        assert(t[0] == s[0]);
        assert(t.drop_first() =~= s.drop_first().update(i - 1, (s[i].0, v)));
        assert(s.drop_first()[i - 1] == s[i]);
        assert forall|a: int, b: int|
            0 <= a < b < s.drop_first().len() implies s.drop_first()[a].0
            != s.drop_first()[b].0 by {
            assert(s.drop_first()[a] == s[a + 1]);
            assert(s.drop_first()[b] == s[b + 1]);
        }
        lemma_count_update(s.drop_first(), i - 1, v);
        assert(s[0].0 != s[i].0);
        assert(spec_count_in(t, s[i].0) == spec_count_in(t.drop_first(), s[i].0));
        assert(spec_count_in(t.drop_first(), s[i].0) == v as int);
        assert forall|k: Seq<char>|
            k != s[i].0 implies spec_count_in(t, k) == spec_count_in(s, k) by {
            if s[0].0 == k {
            } else {
                assert(spec_count_in(t, k) == spec_count_in(t.drop_first(), k));
                assert(spec_count_in(t.drop_first(), k) == spec_count_in(s.drop_first(), k));
            }
        }
    }
}

/// Appending a fresh key leaves every other count alone and records the
/// new one.
proof fn lemma_count_push(s: Seq<(Seq<char>, usize)>, key: Seq<char>, v: usize)
    requires
        !spec_has_key(s, key),
    ensures
        spec_count_in(s.push((key, v)), key) == v as int,
        forall|k: Seq<char>| k != key ==> spec_count_in(s.push((key, v)), k) == spec_count_in(s, k),
    decreases s.len(),
{
    let t = s.push((key, v));
    if s.len() == 0 {
        assert(t[0].0 == key);
        assert forall|k: Seq<char>| k != key implies spec_count_in(t, k) == spec_count_in(s, k) by {
            assert(t.drop_first() =~= Seq::<(Seq<char>, usize)>::empty());
            assert(spec_count_in(t, k) == spec_count_in(t.drop_first(), k));
            assert(spec_count_in(Seq::<(Seq<char>, usize)>::empty(), k) == 0);
        }
    } else {
        assert(s[0].0 != key);
        assert(t[0] == s[0]);
        assert(t.drop_first() =~= s.drop_first().push((key, v)));
        assert forall|i: int|
            0 <= i < s.drop_first().len() implies s.drop_first()[i].0 != key by {
            assert(s.drop_first()[i] == s[i + 1]);
        }
        lemma_count_push(s.drop_first(), key, v);
        assert(spec_count_in(t, key) == spec_count_in(t.drop_first(), key));
        assert(spec_count_in(t.drop_first(), key) == v as int);
        assert forall|k: Seq<char>| k != key implies spec_count_in(t, k) == spec_count_in(s, k) by {
            if s[0].0 == k {
            } else {
                assert(spec_count_in(t, k) == spec_count_in(t.drop_first(), k));
                assert(spec_count_in(t.drop_first(), k) == spec_count_in(s.drop_first(), k));
            }
        }
    }
}

/// Counts of warnings per top-level category.
#[derive(Debug, Clone, Copy, PartialEq, Eq, Structural)]
pub struct CategoryCounts {
    pub safety: usize,
    pub performance: usize,
    pub style: usize,
    pub documentation: usize,
}

impl CategoryCounts {
    pub open spec fn spec_get(self, c: CategoryType) -> usize {
        match c {
            CategoryType::Safety => self.safety,
            CategoryType::Performance => self.performance,
            CategoryType::Style => self.style,
            CategoryType::Documentation => self.documentation,
        }
    }

    /// The sum over all four categories.
    pub open spec fn spec_total(self) -> int {
        self.safety + self.performance + self.style + self.documentation
    }

    pub fn new() -> (r: Self)
        ensures
            forall|c: CategoryType| r.spec_get(c) == 0,
    {
        CategoryCounts { safety: 0, performance: 0, style: 0, documentation: 0 }
    }

    pub fn get(&self, c: CategoryType) -> (r: usize)
        ensures
            r == self.spec_get(c),
    {
        match c {
            CategoryType::Safety => self.safety,
            CategoryType::Performance => self.performance,
            CategoryType::Style => self.style,
            CategoryType::Documentation => self.documentation,
        }
    }

    pub fn increment(&mut self, c: CategoryType)
        requires
            old(self).spec_get(c) < usize::MAX,
        ensures
            final(self).spec_get(c) == old(self).spec_get(c) + 1,
            forall|d: CategoryType| d != c ==> final(self).spec_get(d) == old(self).spec_get(d),
    {
        match c {
            CategoryType::Safety => self.safety = self.safety + 1,
            CategoryType::Performance => self.performance = self.performance + 1,
            CategoryType::Style => self.style = self.style + 1,
            CategoryType::Documentation => self.documentation = self.documentation + 1,
        }
    }
}

/// Counts of warnings per priority level.
#[derive(Debug, Clone, Copy, PartialEq, Eq, Structural)]
pub struct PriorityCounts {
    pub critical: usize,
    pub high: usize,
    pub medium: usize,
    pub low: usize,
    pub trivial: usize,
}

impl PriorityCounts {
    pub open spec fn spec_get(self, p: Priority) -> usize {
        match p {
            Priority::Critical => self.critical,
            Priority::High => self.high,
            Priority::Medium => self.medium,
            Priority::Low => self.low,
            Priority::Trivial => self.trivial,
        }
    }

    /// The sum over all five priorities.
    pub open spec fn spec_total(self) -> int {
        self.critical + self.high + self.medium + self.low + self.trivial
    }

    pub fn new() -> (r: Self)
        ensures
            forall|p: Priority| r.spec_get(p) == 0,
    {
        PriorityCounts { critical: 0, high: 0, medium: 0, low: 0, trivial: 0 }
    }

    pub fn get(&self, p: Priority) -> (r: usize)
        ensures
            r == self.spec_get(p),
    {
        match p {
            Priority::Critical => self.critical,
            Priority::High => self.high,
            Priority::Medium => self.medium,
            Priority::Low => self.low,
            Priority::Trivial => self.trivial,
        }
    }

    pub fn increment(&mut self, p: Priority)
        requires
            old(self).spec_get(p) < usize::MAX,
        ensures
            final(self).spec_get(p) == old(self).spec_get(p) + 1,
            forall|q: Priority| q != p ==> final(self).spec_get(q) == old(self).spec_get(q),
    {
        match p {
            Priority::Critical => self.critical = self.critical + 1,
            Priority::High => self.high = self.high + 1,
            Priority::Medium => self.medium = self.medium + 1,
            Priority::Low => self.low = self.low + 1,
            Priority::Trivial => self.trivial = self.trivial + 1,
        }
    }
}

} // verus!
