//! The mailbox registry: a mapping from mailbox name to an outbound
//! connection handle, shared by every session.  At most one handle is live
//! per name; registering a name that is already present evicts the previous
//! handle and hands it back, so the caller can notify and close it.

use vstd::prelude::*;

use crate::text::str_eq;

verus! {

/// The mapping a sequence of entries denotes: later entries win.
pub open spec fn map_of<H>(entries: Seq<(String, H)>) -> Map<Seq<char>, H>
    decreases entries.len(),
{
    if entries.len() == 0 {
        Map::empty()
    } else {
        map_of(entries.drop_last()).insert(entries.last().0@, entries.last().1)
    }
}

/// A key is in the mapping exactly when some entry carries it.
proof fn lemma_map_of_contains<H>(entries: Seq<(String, H)>, k: Seq<char>)
    ensures
        map_of(entries).contains_key(k) <==> exists|i: int|
            0 <= i < entries.len() && entries[i].0@ == k,
    decreases entries.len(),
{
    if entries.len() > 0 {
        lemma_map_of_contains(entries.drop_last(), k);
        if entries.last().0@ == k {
            assert(entries[entries.len() - 1].0@ == k);
        } else if map_of(entries).contains_key(k) {
            let i = choose|i: int| 0 <= i < entries.drop_last().len() && entries.drop_last()[
                i
            ].0@ == k;
            assert(entries[i].0@ == k);
        } else {
            if exists|i: int| 0 <= i < entries.len() && entries[i].0@ == k {
                let i = choose|i: int| 0 <= i < entries.len() && entries[i].0@ == k;
                assert(entries.drop_last()[i].0@ == k);
            }
        }
    }
}

/// With no duplicate keys, the entry holding a key gives its mapping.
proof fn lemma_map_of_at<H>(entries: Seq<(String, H)>, i: int)
    requires
        0 <= i < entries.len(),
        forall|p: int, q: int|
            0 <= p < q < entries.len() ==> entries[p].0@ != entries[q].0@,
    ensures
        map_of(entries).contains_key(entries[i].0@),
        map_of(entries)[entries[i].0@] == entries[i].1,
    decreases entries.len(),
{
    if i == entries.len() - 1 {
        assert(entries.last() == entries[i]);
    } else {
        lemma_map_of_at(entries.drop_last(), i);
        assert(entries.drop_last()[i] == entries[i]);
        assert(entries.last().0@ != entries[i].0@);
    }
}

/// Appending an entry inserts its binding.
proof fn lemma_map_of_push<H>(entries: Seq<(String, H)>, p: (String, H))
    ensures
        map_of(entries.push(p)) == map_of(entries).insert(p.0@, p.1),
{
    assert(entries.push(p).drop_last() =~= entries);
    assert(entries.push(p).last() == p);
}

/// Removing the entry that holds a key removes its binding, when keys are
/// unique.
proof fn lemma_map_of_remove<H>(entries: Seq<(String, H)>, i: int)
    requires
        0 <= i < entries.len(),
        forall|p: int, q: int|
            0 <= p < q < entries.len() ==> entries[p].0@ != entries[q].0@,
    ensures
        map_of(entries.remove(i)) =~= map_of(entries).remove(entries[i].0@),
    decreases entries.len(),
{
    let k = entries[i].0@;
    if i == entries.len() - 1 {
        assert(entries.remove(i) =~= entries.drop_last());
        lemma_map_of_contains(entries.drop_last(), k);
        assert forall|j: int| 0 <= j < entries.drop_last().len() implies entries.drop_last()[
            j
        ].0@ != k by {
            assert(entries[j].0@ != entries[i].0@);
        }
        assert(map_of(entries.drop_last()) =~= map_of(entries).remove(k));
    } else {
        let shorter = entries.drop_last();
        lemma_map_of_remove(shorter, i);
        assert(entries.remove(i).drop_last() =~= shorter.remove(i));
        assert(entries.remove(i).last() == entries.last());
        assert(entries.remove(i).len() == entries.len() - 1);
        assert(map_of(entries.remove(i)) == map_of(shorter.remove(i)).insert(
            entries.last().0@,
            entries.last().1,
        ));
        assert(entries.last().0@ != k);
        assert(map_of(entries.remove(i)) =~= map_of(entries).remove(k));
    }
}

/// The shared mailbox registry.  `H` is the outbound-connection handle type;
/// the registry only stores and returns handles, never inspects them.
pub struct MailboxRegistry<H> {
    entries: Vec<(String, H)>,
}

impl<H> View for MailboxRegistry<H> {
    type V = Map<Seq<char>, H>;

    closed spec fn view(&self) -> Map<Seq<char>, H> {
        map_of(self.entries@)
    }
}

impl<H> MailboxRegistry<H> {
    /// Well-formedness: no two entries share a name.  Established by
    /// [`MailboxRegistry::new`] and preserved by every operation.
    pub closed spec fn wf(&self) -> bool {
        forall|p: int, q: int|
            0 <= p < q < self.entries@.len() ==> self.entries@[p].0@ != self.entries@[q].0@
    }

    /// An empty registry.
    pub fn new() -> (r: MailboxRegistry<H>)
        ensures
            r@ == Map::<Seq<char>, H>::empty(),
            r.wf(),
    {
        MailboxRegistry { entries: Vec::new() }
    }

    /// The position of the entry holding `name`, if any.
    fn position(&self, name: &str) -> (r: Option<usize>)
        ensures
            match r {
                Some(i) => {
                    &&& i < self.entries@.len()
                    &&& self.entries@[i as int].0@ == name@
                },
                None => forall|i: int|
                    0 <= i < self.entries@.len() ==> self.entries@[i].0@ != name@,
            },
    {
        let n = self.entries.len();
        for i in 0..n
            invariant
                n == self.entries@.len(),
                forall|j: int| 0 <= j < i ==> self.entries@[j].0@ != name@,
        {
            if str_eq(self.entries[i].0.as_str(), name) {
                return Some(i);
            }
        }
        None
    }

    /// Bind `name` to `handle`.  Returns the handle that was evicted, where
    /// the name was already taken; the caller is responsible for notifying
    /// and closing it.
    pub fn register(&mut self, name: String, handle: H) -> (prev: Option<H>)
        requires
            old(self).wf(),
        ensures
            final(self).wf(),
            final(self)@ == old(self)@.insert(name@, handle),
            match prev {
                Some(h) => old(self)@.contains_key(name@) && old(self)@[name@] == h,
                None => !old(self)@.contains_key(name@),
            },
    {
        let ghost entries0 = self.entries@;
        let ghost gname = name@;
        let ghost ghandle = handle;
        let pos = self.position(name.as_str());
        let prev: Option<H> = match pos {
            Some(i) => {
                proof {
                    lemma_map_of_at(entries0, i as int);
                    lemma_map_of_remove(entries0, i as int);
                }
                let (_, h) = self.entries.remove(i);
                Some(h)
            },
            None => {
                proof {
                    lemma_map_of_contains(entries0, name@);
                }
                None
            },
        };
        let ghost before_push = self.entries@;
        self.entries.push((name, handle));
        proof {
            lemma_map_of_push(before_push, self.entries@.last());
            assert(self.entries@.last().0@ == gname);
            assert(self@ =~= old(self)@.insert(gname, ghandle));
        }
        prev
    }

    /// The handle bound to `name`, if any.
    pub fn lookup(&self, name: &str) -> (r: Option<&H>)
        requires
            self.wf(),
        ensures
            match r {
                Some(h) => self@.contains_key(name@) && *h == self@[name@],
                None => !self@.contains_key(name@),
            },
    {
        proof {
            lemma_map_of_contains(self.entries@, name@);
        }
        match self.position(name) {
            Some(i) => {
                proof {
                    lemma_map_of_at(self.entries@, i as int);
                }
                Some(&self.entries[i].1)
            },
            None => None,
        }
    }

    /// Drop the binding for `name`, handing back its handle, if any.
    pub fn unregister(&mut self, name: &str) -> (r: Option<H>)
        requires
            old(self).wf(),
        ensures
            final(self).wf(),
            final(self)@ == old(self)@.remove(name@),
            match r {
                Some(h) => old(self)@.contains_key(name@) && old(self)@[name@] == h,
                None => !old(self)@.contains_key(name@),
            },
    {
        proof {
            lemma_map_of_contains(self.entries@, name@);
        }
        match self.position(name) {
            Some(i) => {
                proof {
                    lemma_map_of_at(self.entries@, i as int);
                    lemma_map_of_remove(self.entries@, i as int);
                }
                let (_, h) = self.entries.remove(i);
                Some(h)
            },
            None => {
                proof {
                    assert(old(self)@ =~= old(self)@.remove(name@));
                }
                None
            },
        }
    }
}

} // verus!
