//! The collection of entries: fragments are ingested one at a time, an
//! entry whose name is already present is merged into the existing one,
//! and the whole set renders in order of first appearance, which makes the
//! report deterministic.

use vstd::prelude::*;
use vstd::string::StringExecFns;

use crate::entry::Entry;
use crate::entry::EntryV;
use crate::entry::merge_spec;
use crate::entry::parse_spec;
use crate::render::render_entry;

verus! {

/// The entries accumulated so far, at most one per name, in order of
/// first appearance.
pub struct Weekly {
    entries: Vec<Entry>,
}

impl View for Weekly {
    type V = Seq<EntryV>;

    closed spec fn view(&self) -> Seq<EntryV> {
        self.entries.deep_view()
    }
}

/// The concatenated rendering of a sequence of entries, in order.
pub open spec fn render_all(s: Seq<EntryV>) -> Seq<char>
    decreases s.len(),
{
    if s.len() == 0 {
        Seq::empty()
    } else {
        render_all(s.drop_last()) + render_entry(s.last())
    }
}

impl Weekly {
    /// No two entries share a name.
    pub open spec fn wf(&self) -> bool {
        forall|i: int, j: int|
            0 <= i < j < self@.len() ==> self@[i].name != self@[j].name
    }

    /// A new, empty collection.
    pub fn new() -> (w: Weekly)
        ensures
            w.wf(),
            w@ == Seq::<EntryV>::empty(),
    {
        let w = Weekly { entries: Vec::new() };
        proof {
            assert(w@ =~= Seq::<EntryV>::empty());
        }
        w
    }

    /// How many entries the collection holds.
    pub fn len(&self) -> (n: usize)
        ensures
            n == self@.len(),
    {
        self.entries.len()
    }

    /// The index of the entry of the given name, when one is present.
    fn find(&self, name: &str) -> (r: Option<usize>)
        ensures
            match r {
                Some(i) => i < self@.len() && self@[i as int].name == name@,
                None => forall|j: int| 0 <= j < self@.len() ==> self@[j].name != name@,
            },
    {
        let key = name.to_owned();
        let n = self.entries.len();
        let mut idx: usize = 0;
        while idx < n
            invariant
                idx <= n,
                n == self.entries.len(),
                key@ == name@,
                forall|j: int| 0 <= j < idx ==> self@[j].name != name@,
            decreases n - idx,
        {
            if self.entries[idx].name == key {
                proof {
                    assert(self@[idx as int] == self.entries@[idx as int].deep_view());
                }
                return Some(idx);
            }
            idx += 1;
        }
        None
    }

    /// Ingest one raw fragment: one that yields no entry changes nothing;
    /// one whose name is already present merges into that entry, which
    /// keeps its place; any other entry is appended.
    pub fn parse(&mut self, text: &str)
        requires
            old(self).wf(),
        ensures
            final(self).wf(),
            parse_spec(text@) is None ==> final(self)@ == old(self)@,
            parse_spec(text@) matches Some(ev) ==> if (exists|i: int|
                0 <= i < old(self)@.len() && old(self)@[i].name == ev.name) {
                exists|i: int|
                    0 <= i < old(self)@.len() && old(self)@[i].name == ev.name && final(self)@
                        == old(self)@.update(i, merge_spec(old(self)@[i], ev))
            } else {
                final(self)@ == old(self)@.push(ev)
            },
    {
        let parsed = Entry::parse(text);
        match parsed {
            None => {},
            Some(e) => {
                match self.find(e.name.as_str()) {
                    Some(i) => {
                        let ghost before = self@;
                        let mut ent = self.entries.remove(i);
                        ent.merge(e);
                        self.entries.insert(i, ent);
                        proof {
                            assert(self@ =~= before.update(
                                i as int,
                                merge_spec(before[i as int], e@),
                            ));
                            assert(forall|k: int|
                                0 <= k < self@.len() ==> self@[k].name == before[k].name);
                        }
                    },
                    None => {
                        self.entries.push(e);
                        proof {
                            assert(self@ =~= old(self)@.push(e@));
                        }
                    },
                }
            },
        }
    }

    /// The entry of the given name, when one is present.
    pub fn get(&self, name: &str) -> (r: Option<&Entry>)
        ensures
            match r {
                Some(e) => exists|i: int|
                    0 <= i < self@.len() && self@[i] == e@ && self@[i].name == name@,
                None => forall|i: int| 0 <= i < self@.len() ==> self@[i].name != name@,
            },
    {
        match self.find(name) {
            Some(i) => {
                proof {
                    assert(self@[i as int] == self.entries@[i as int].deep_view());
                }
                Some(&self.entries[i])
            },
            None => None,
        }
    }

    /// Render every entry in order of first appearance.
    pub fn render(&self) -> (out: String)
        ensures
            out@ == render_all(self@),
    {
        let mut out = String::new();
        let n = self.entries.len();
        proof {
            assert(out@ =~= render_all(self@.take(0)));
        }
        let mut j: usize = 0;
        while j < n
            invariant
                j <= n,
                n == self.entries.len(),
                out@ == render_all(self@.take(j as int)),
            decreases n - j,
        {
            let piece = self.entries[j].render();
            out.append(piece.as_str());
            proof {
                assert(self@.take(j as int + 1).drop_last() =~= self@.take(j as int));
                assert(self@.take(j as int + 1).last() == self@[j as int]);
                assert(self@[j as int] == self.entries@[j as int].deep_view());
                assert(out@ =~= render_all(self@.take(j as int + 1)));
            }
            j += 1;
        }
        proof {
            assert(self@.take(n as int) =~= self@);
        }
        out
    }
}

} // verus!
