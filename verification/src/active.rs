//! The requests in progress, by id, each with what is needed to cancel it.
use vstd::prelude::*;
use crate::text::{chars_of, vec_eq};

verus! {

/// The ids and handles of requests in progress, oldest first; a later entry
/// for an id hides an earlier one.
pub struct ActiveRequests<T> {
    entries: Vec<(String, T)>,
}

pub open spec fn entries_map<T>(s: Seq<(Seq<char>, T)>) -> Map<Seq<char>, T>
    decreases s.len(),
{
    if s.len() == 0 {
        Map::empty()
    } else {
        entries_map(s.drop_last()).insert(s.last().0, s.last().1)
    }
}

/// An id held by no entry is not in the map.
proof fn lemma_absent<T>(s: Seq<(Seq<char>, T)>, k: Seq<char>)
    requires
        forall|j: int| 0 <= j < s.len() ==> (#[trigger] s[j]).0 != k,
    ensures
        !entries_map(s).contains_key(k),
    decreases s.len(),
{
    if s.len() > 0 {
        lemma_absent(s.drop_last(), k);
    }
}

/// The map holds, for an id, the value of its last entry.
proof fn lemma_last_entry<T>(s: Seq<(Seq<char>, T)>, k: Seq<char>, j: int)
    requires
        0 <= j < s.len(),
        s[j].0 == k,
        forall|m: int| j < m < s.len() ==> (#[trigger] s[m]).0 != k,
    ensures
        entries_map(s).contains_key(k),
        entries_map(s)[k] == s[j].1,
    decreases s.len(),
{
    if j < s.len() - 1 {
        lemma_last_entry(s.drop_last(), k, j);
    }
}

/// Dropping an entry for `k` changes nothing but what is kept under `k`.
proof fn lemma_remove_entry<T>(s: Seq<(Seq<char>, T)>, k: Seq<char>, i: int)
    requires
        0 <= i < s.len(),
        s[i].0 == k,
    ensures
        entries_map(s.remove(i)).remove(k) == entries_map(s).remove(k),
    decreases s.len(),
{
    if i == s.len() - 1 {
        assert(s.remove(i) =~= s.drop_last());
        assert(entries_map(s).remove(k) =~= entries_map(s.drop_last()).remove(k));
    } else {
        lemma_remove_entry(s.drop_last(), k, i);
        let r = s.remove(i);
        assert(r.drop_last() =~= s.drop_last().remove(i));
        assert(r.last() == s.last());
        let x = entries_map(s.drop_last().remove(i));
        let y = entries_map(s.drop_last());
        assert(entries_map(r) == x.insert(s.last().0, s.last().1));
        assert(entries_map(s) == y.insert(s.last().0, s.last().1));
        assert(x.remove(k) == y.remove(k));
        assert(x.insert(s.last().0, s.last().1).remove(k) =~= y.insert(s.last().0, s.last().1).remove(k)) by {
            assert forall|key: Seq<char>| #[trigger] x.insert(s.last().0, s.last().1).remove(k).contains_key(key)
                == y.insert(s.last().0, s.last().1).remove(k).contains_key(key) by {
                if key != k && key != s.last().0 {
                    assert(x.remove(k).contains_key(key) == y.remove(k).contains_key(key));
                }
            }
            assert forall|key: Seq<char>| #[trigger] x.insert(s.last().0, s.last().1).remove(k).contains_key(key)
                implies x.insert(s.last().0, s.last().1).remove(k)[key] == y.insert(s.last().0, s.last().1).remove(k)[key] by {
                if key != s.last().0 {
                    assert(x.remove(k)[key] == y.remove(k)[key]);
                }
            }
        }
    }
}

impl<T> ActiveRequests<T> {
    pub closed spec fn entries(&self) -> Seq<(Seq<char>, T)> {
        self.entries@.map_values(|e: (String, T)| (e.0@, e.1))
    }

    /// The handle of each request in progress, by id.
    pub open spec fn handles(&self) -> Map<Seq<char>, T> {
        entries_map(self.entries())
    }

    pub fn new() -> (r: Self)
        ensures
            r.handles() == Map::<Seq<char>, T>::empty(),
    {
        let r = ActiveRequests { entries: Vec::new() };
        assert(r.entries() =~= Seq::empty());
        r
    }

    fn same_id(&self, i: usize, id: &str) -> (r: bool)
        requires
            i < self.entries@.len(),
        ensures
            r == (self.entries()[i as int].0 == id@),
    {
        vec_eq(&chars_of(self.entries[i].0.as_str()), &chars_of(id))
    }

    /// The handle of the request `id`, if it is in progress.
    pub fn get(&self, id: &str) -> (r: Option<&T>)
        ensures
            match self.handles().get(id@) {
                Some(v) => r matches Some(x) && *x == v,
                None => r is None,
            },
    {
        let ghost s = self.entries();
        let mut i: usize = self.entries.len();
        while i > 0
            invariant
                i <= self.entries@.len(),
                s == self.entries(),
                forall|m: int| i <= m < s.len() ==> (#[trigger] s[m]).0 != id@,
            decreases i,
        {
            if self.same_id(i - 1, id) {
                proof {
                    lemma_last_entry(s, id@, i - 1);
                }
                return Some(&self.entries[i - 1].1);
            }
            i -= 1;
        }
        proof {
            lemma_absent(s, id@);
        }
        None
    }

    /// Forgets the request `id`.
    pub fn finish(&mut self, id: &str)
        ensures
            final(self).handles() == old(self).handles().remove(id@),
    {
        let mut i: usize = 0;
        while i < self.entries.len()
            invariant
                i <= self.entries@.len(),
                entries_map(self.entries()).remove(id@) == old(self).handles().remove(id@),
                forall|m: int| 0 <= m < i ==> (#[trigger] self.entries()[m]).0 != id@,
            decreases self.entries@.len() - i,
        {
            if self.same_id(i, id) {
                let ghost before = self.entries();
                self.entries.remove(i);
                proof {
                    assert(self.entries() =~= before.remove(i as int));
                    lemma_remove_entry(before, id@, i as int);
                }
            } else {
                i += 1;
            }
        }
        proof {
            lemma_absent(self.entries(), id@);
            assert(entries_map(self.entries()) =~= entries_map(self.entries()).remove(id@));
        }
    }

    /// Records the request `id` with its handle, in place of any earlier one.
    pub fn start(&mut self, id: String, handle: T)
        ensures
            final(self).handles() == old(self).handles().insert(id@, handle),
    {
        self.finish(id.as_str());
        let ghost before = self.entries();
        let ghost k = id@;
        self.entries.push((id, handle));
        proof {
            assert(self.entries() =~= before.push((k, handle)));
            assert(self.entries().drop_last() =~= before);
            assert(old(self).handles().insert(k, handle) =~= old(self).handles().remove(k).insert(k, handle));
        }
    }
}

} // verus!
