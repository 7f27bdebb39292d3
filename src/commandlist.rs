use vstd::prelude::*;
use crate::lineeditor::{chars_eq, copy_chars};

verus! {

/// The view of a list of entries as sequences of characters.
pub open spec fn entries_view(v: Seq<Vec<char>>) -> Seq<Seq<char>> {
    v.map_values(|e: Vec<char>| e@)
}

/// The last `cap` entries of `s` where a cap is set and `s` is longer.
pub open spec fn capped(s: Seq<Seq<char>>, cap: Option<usize>) -> Seq<Seq<char>> {
    match cap {
        Some(m) => if s.len() > m {
            s.subrange(s.len() - m, s.len() as int)
        } else {
            s
        },
        None => s,
    }
}

/// The list after appending `e` and evicting the oldest entries beyond `cap`.
pub open spec fn pushed(s: Seq<Seq<char>>, e: Seq<char>, cap: Option<usize>) -> Seq<Seq<char>> {
    capped(s.push(e), cap)
}

/// The list after pushing each of `es` in turn.
pub open spec fn pushed_all(s: Seq<Seq<char>>, es: Seq<Seq<char>>, cap: Option<usize>) -> Seq<
    Seq<char>,
>
    decreases es.len(),
{
    if es.len() == 0 {
        s
    } else {
        pushed(pushed_all(s, es.drop_last(), cap), es.last(), cap)
    }
}

/// `i` is the first position of `e` in `s`.
pub open spec fn is_first(s: Seq<Seq<char>>, e: Seq<char>, i: int) -> bool {
    0 <= i < s.len() && s[i] == e && forall|j: int| 0 <= j < i ==> s[j] != e
}

/// The list after toggling `e`: its first occurrence removed if there is one,
/// else `e` appended (evicting the oldest entry where the list is at its cap).
pub open spec fn toggled(s: Seq<Seq<char>>, e: Seq<char>, cap: Option<usize>) -> Seq<Seq<char>> {
    if s.contains(e) {
        s.remove(choose|i: int| is_first(s, e, i))
    } else {
        pushed(s, e, cap)
    }
}

proof fn lemma_first_unique(s: Seq<Seq<char>>, e: Seq<char>, i: int, k: int)
    requires
        is_first(s, e, i),
        is_first(s, e, k),
    ensures
        i == k,
{
    if i < k {
        assert(s[i] != e);
    } else if k < i {
        assert(s[k] != e);
    }
}

/// Pushing entries one after another onto a list that is within the cap
/// leaves the last `cap` of all entries (fewer if there are not as many), in
/// order: the list never grows past the cap and keeps the most recent ones.
pub proof fn lemma_push_keeps_most_recent(s: Seq<Seq<char>>, es: Seq<Seq<char>>, m: usize)
    requires
        s.len() <= m,
    ensures
        pushed_all(s, es, Some(m)).len() <= m,
        pushed_all(s, es, Some(m)) == (if s.len() + es.len() > m {
            (s + es).subrange(s.len() + es.len() - m, (s.len() + es.len()) as int)
        } else {
            s + es
        }),
    decreases es.len(),
{
    if es.len() == 0 {
        assert(s + es =~= s);
    } else {
        lemma_push_keeps_most_recent(s, es.drop_last(), m);
        let all = s + es;
        let prev = s + es.drop_last();
        assert(prev =~= all.drop_last());
        let n = all.len();
        if n - 1 > m {
            assert(pushed_all(s, es, Some(m)) =~= all.subrange(n - m, n as int));
        } else if n > m {
            assert(pushed_all(s, es, Some(m)) =~= all.subrange(n - m, n as int));
        } else {
            assert(pushed_all(s, es, Some(m)) =~= all);
        }
    }
}

/// Toggling an entry that the list does not hold, twice in a row, gives the
/// list back unchanged, where the list has room for one more entry.
pub proof fn lemma_toggle_twice(s: Seq<Seq<char>>, x: Seq<char>, cap: Option<usize>)
    requires
        !s.contains(x),
        cap matches Some(m) ==> s.len() < m,
    ensures
        toggled(toggled(s, x, cap), x, cap) == s,
{
    let t = s.push(x);
    assert(toggled(s, x, cap) == t);
    assert(t[s.len() as int] == x);
    assert(t.contains(x));
    assert(is_first(t, x, s.len() as int)) by {
        assert forall|j: int| 0 <= j < s.len() implies t[j] != x by {
            assert(t[j] == s[j]);
        }
    }
    let i = choose|i: int| is_first(t, x, i);
    lemma_first_unique(t, x, i, s.len() as int);
    assert(t.remove(s.len() as int) =~= s);
}

pub enum CommandListError {
    IndexOutOfRange,
}

/// An ordered list of command entries, oldest first, optionally capped.
pub struct CommandList {
    pub entries: Vec<Vec<char>>,
    pub max_size: Option<usize>,
}

impl CommandList {
    pub open spec fn view_entries(&self) -> Seq<Seq<char>> {
        entries_view(self.entries@)
    }

    /// The list is within its cap.
    pub open spec fn wf(&self) -> bool {
        self.max_size matches Some(m) ==> self.entries@.len() <= m
    }

    /// A list of the given entries; where they are more than the cap, only the
    /// most recent ones are kept.
    pub fn new(entries: Vec<Vec<char>>, max_size: Option<usize>) -> (r: CommandList)
        ensures
            r.wf(),
            r.max_size == max_size,
            r.view_entries() == capped(entries_view(entries@), max_size),
    {
        let mut r = CommandList { entries, max_size };
        r.evict();
        r
    }

    /// Removes the oldest entries until the list is within its cap.
    fn evict(&mut self)
        ensures
            final(self).wf(),
            final(self).max_size == old(self).max_size,
            final(self).view_entries() == capped(old(self).view_entries(), old(self).max_size),
    {
        let ghost n = old(self).view_entries();
        match self.max_size {
            Some(m) => {
                while self.entries.len() > m
                    invariant
                        self.max_size == Some(m),
                        n.len() == old(self).entries@.len(),
                        self.entries@.len() <= n.len(),
                        n.len() > m ==> self.entries@.len() >= m,
                        n.len() <= m ==> self.entries@.len() == n.len(),
                        self.view_entries() == n.subrange(
                            n.len() - self.entries@.len(),
                            n.len() as int,
                        ),
                    decreases self.entries@.len(),
                {
                    let ghost before = self.view_entries();
                    self.entries.remove(0);
                    assert(self.view_entries() =~= before.drop_first());
                    assert(self.view_entries() =~= n.subrange(
                        n.len() - self.entries@.len(),
                        n.len() as int,
                    ));
                }
                proof {
                    if n.len() <= m {
                        assert(self.view_entries() =~= n);
                    }
                }
            },
            None => {},
        }
    }

    pub fn len(&self) -> (r: usize)
        ensures
            r == self.entries@.len(),
    {
        self.entries.len()
    }

    /// Appends `entry`, then removes the oldest entries until the list is
    /// within its cap.
    pub fn push(&mut self, entry: Vec<char>)
        ensures
            final(self).wf(),
            old(self).wf() ==> final(self).entries@.len() >= old(self).entries@.len(),
            final(self).max_size == old(self).max_size,
            final(self).view_entries() == pushed(
                old(self).view_entries(),
                entry@,
                old(self).max_size,
            ),
    {
        let ghost n = old(self).view_entries().push(entry@);
        self.entries.push(entry);
        assert(self.view_entries() =~= n);
        self.evict();
        assert(self.view_entries().len() == self.entries@.len());
        assert(n.len() == old(self).entries@.len() + 1);
    }

    /// The entry at `idx`.
    pub fn get_at(&self, idx: usize) -> (r: Result<Vec<char>, CommandListError>)
        ensures
            idx < self.entries@.len() ==> (r matches Ok(e) && e@ == self.entries@[idx as int]@),
            idx >= self.entries@.len() ==> r matches Err(CommandListError::IndexOutOfRange),
    {
        if idx < self.entries.len() {
            Ok(copy_chars(&self.entries[idx]))
        } else {
            Err(CommandListError::IndexOutOfRange)
        }
    }

    /// Removes the first entry equal to `entry` if there is one, else appends
    /// `entry`.
    pub fn toggle_entry(&mut self, entry: Vec<char>)
        ensures
            final(self).max_size == old(self).max_size,
            old(self).wf() ==> final(self).wf(),
            final(self).view_entries() == toggled(
                old(self).view_entries(),
                entry@,
                old(self).max_size,
            ),
    {
        let ghost s = self.view_entries();
        let mut i: usize = 0;
        while i < self.entries.len()
            invariant
                s == self.view_entries(),
                s == old(self).view_entries(),
                self.max_size == old(self).max_size,
                i <= self.entries@.len(),
                forall|j: int| 0 <= j < i ==> s[j] != entry@,
            decreases self.entries@.len() - i,
        {
            if chars_eq(&self.entries[i], &entry) {
                proof {
                    assert(is_first(s, entry@, i as int));
                    assert(s.contains(entry@));
                    let k = choose|k: int| is_first(s, entry@, k);
                    lemma_first_unique(s, entry@, i as int, k);
                }
                self.entries.remove(i);
                assert(self.view_entries() =~= s.remove(i as int));
                return;
            }
            i += 1;
        }
        assert(!s.contains(entry@)) by {
            if s.contains(entry@) {
                let j = choose|j: int| 0 <= j < s.len() && s[j] == entry@;
                assert(s[j] != entry@);
            }
        }
        self.push(entry);
    }
}

} // verus!
