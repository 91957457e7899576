//! The per-zone collection the parsers fill and the builders walk: an
//! association list keyed by zone id, kept sorted and duplicate-free, so
//! that building a string from it is deterministic (ascending zone order)
//! where a hash map would not be.

use vstd::prelude::*;

verus! {

/// The position a zone id occupies, or would occupy, in a table sorted by
/// ascending id: the number of entries with a smaller id.
pub open spec fn table_pos<T>(t: Seq<(u16, Seq<T>)>, id: u16) -> int
    decreases t.len(),
{
    if t.len() == 0 {
        0
    } else if t[0].0 < id {
        1 + table_pos(t.drop_first(), id)
    } else {
        0
    }
}

/// Sorted strictly ascending by zone id; ids are therefore unique.
pub open spec fn table_sorted<T>(t: Seq<(u16, Seq<T>)>) -> bool {
    forall|i: int, j: int| 0 <= i < j < t.len() ==> (#[trigger] t[i]).0 < (#[trigger] t[j]).0
}

/// The entry list of a zone id, if the table has one.
pub open spec fn spec_table_get<T>(t: Seq<(u16, Seq<T>)>, id: u16) -> Option<Seq<T>> {
    let p = table_pos(t, id);
    if p < t.len() && t[p].0 == id {
        Option::Some(t[p].1)
    } else {
        Option::None
    }
}

/// The table after appending one item to a zone's list, creating the zone
/// entry at its sorted position if it is new.
pub open spec fn spec_table_add<T>(t: Seq<(u16, Seq<T>)>, id: u16, item: T) -> Seq<
    (u16, Seq<T>),
> {
    let p = table_pos(t, id);
    if p < t.len() && t[p].0 == id {
        t.update(p, (id, t[p].1.push(item)))
    } else {
        t.insert(p, (id, seq![item]))
    }
}

pub proof fn lemma_table_pos<T>(t: Seq<(u16, Seq<T>)>, id: u16)
    requires
        table_sorted(t),
    ensures
        0 <= table_pos(t, id) <= t.len(),
        forall|j: int| 0 <= j < table_pos(t, id) ==> (#[trigger] t[j]).0 < id,
        forall|j: int| table_pos(t, id) <= j < t.len() ==> (#[trigger] t[j]).0 >= id,
    decreases t.len(),
{
    if t.len() > 0 {
        let d = t.drop_first();
        assert(forall|i: int, j: int|
            0 <= i < j < d.len() ==> (#[trigger] d[i]).0 < (#[trigger] d[j]).0) by {
            assert(forall|i: int| 0 <= i < d.len() ==> d[i] == t[i + 1]);
        }
        lemma_table_pos(d, id);
        assert(forall|j: int| 1 <= j < t.len() ==> t[j] == d[j - 1]);
    }
}

/// Adding an item keeps the table sorted.
pub proof fn lemma_table_add_sorted<T>(t: Seq<(u16, Seq<T>)>, id: u16, item: T)
    requires
        table_sorted(t),
    ensures
        table_sorted(spec_table_add(t, id, item)),
{
    lemma_table_pos(t, id);
    let p = table_pos(t, id);
    let r = spec_table_add(t, id, item);
    if p < t.len() && t[p].0 == id {
        assert(forall|j: int| 0 <= j < t.len() && j != p ==> r[j] == t[j]);
        assert(r[p].0 == id);
    } else {
        assert(forall|j: int| 0 <= j < p ==> r[j] == t[j]);
        assert(r[p].0 == id);
        assert(forall|j: int| p < j < r.len() ==> r[j] == t[j - 1]);
        assert(p < t.len() ==> t[p].0 > id);
    }
}

/// The table after a zone's whole list is set at once, replacing any list
/// the zone already had.
pub open spec fn spec_table_put<T>(t: Seq<(u16, Seq<T>)>, id: u16, items: Seq<T>) -> Seq<
    (u16, Seq<T>),
> {
    let p = table_pos(t, id);
    if p < t.len() && t[p].0 == id {
        t.update(p, (id, items))
    } else {
        t.insert(p, (id, items))
    }
}

/// Setting a zone's list keeps the table sorted.
pub proof fn lemma_table_put_sorted<T>(t: Seq<(u16, Seq<T>)>, id: u16, items: Seq<T>)
    requires
        table_sorted(t),
    ensures
        table_sorted(spec_table_put(t, id, items)),
{
    lemma_table_pos(t, id);
    let p = table_pos(t, id);
    let r = spec_table_put(t, id, items);
    if p < t.len() && t[p].0 == id {
        assert(forall|j: int| 0 <= j < t.len() && j != p ==> r[j] == t[j]);
        assert(r[p].0 == id);
    } else {
        assert(forall|j: int| 0 <= j < p ==> r[j] == t[j]);
        assert(r[p].0 == id);
        assert(forall|j: int| p < j < r.len() ==> r[j] == t[j - 1]);
        assert(p < t.len() ==> t[p].0 > id);
    }
}

/// Reading a zone back right after adding to it sees the appended item.
pub proof fn lemma_table_add_get<T>(t: Seq<(u16, Seq<T>)>, id: u16, item: T)
    requires
        table_sorted(t),
    ensures
        spec_table_get(spec_table_add(t, id, item), id) == Option::Some(
            match spec_table_get(t, id) {
                Option::Some(ms) => ms.push(item),
                Option::None => seq![item],
            },
        ),
{
    lemma_table_pos(t, id);
    let p = table_pos(t, id);
    let r = spec_table_add(t, id, item);
    lemma_table_add_sorted(t, id, item);
    lemma_table_pos(r, id);
    let q = table_pos(r, id);
    if p < t.len() && t[p].0 == id {
        assert(forall|j: int| 0 <= j < t.len() && j != p ==> r[j] == t[j]);
        assert(r[p] == (id, t[p].1.push(item)));
        assert(q == p);
    } else {
        assert(forall|j: int| 0 <= j < p ==> r[j] == t[j]);
        assert(r[p] == (id, seq![item]));
        assert(forall|j: int| p < j < r.len() ==> r[j] == t[j - 1]);
        assert(q == p);
    }
}

/// A per-zone collection of items of one kind, sorted by zone id.
#[derive(Debug)]
pub struct ZoneTable<T> {
    pub entries: Vec<(u16, Vec<T>)>,
}

impl<T> ZoneTable<T> {
    /// The spec-level table: each entry's zone id with its item sequence.
    pub open spec fn view_entries(&self) -> Seq<(u16, Seq<T>)> {
        self.entries@.map_values(|p: (u16, Vec<T>)| (p.0, p.1@))
    }

    /// Sorted strictly ascending by zone id.
    pub open spec fn wf(&self) -> bool {
        table_sorted(self.view_entries())
    }

    /// An empty table.
    pub fn new() -> (r: ZoneTable<T>)
        ensures
            r.view_entries() =~= Seq::<(u16, Seq<T>)>::empty(),
            r.wf(),
    {
        let r = ZoneTable { entries: Vec::new() };
        proof {
            assert(r.view_entries() =~= Seq::<(u16, Seq<T>)>::empty());
        }
        r
    }

    /// How many zones have entries.
    pub fn zone_count(&self) -> (n: usize)
        ensures
            n == self.view_entries().len(),
    {
        self.entries.len()
    }

    /// The item list of a zone, if the table has one.
    pub fn get<'a>(&'a self, id: u16) -> (r: Option<&'a Vec<T>>)
        requires
            self.wf(),
        ensures
            match r {
                Option::Some(v) => spec_table_get(self.view_entries(), id) == Option::Some(v@),
                Option::None => spec_table_get(self.view_entries(), id) is None,
            },
    {
        proof {
            lemma_table_pos(self.view_entries(), id);
        }
        let mut i: usize = 0;
        while i < self.entries.len()
            invariant
                i <= self.entries@.len(),
                forall|j: int| 0 <= j < i ==> (#[trigger] self.view_entries()[j]).0 < id,
                table_sorted(self.view_entries()),
                self.view_entries().len() == self.entries@.len(),
            decreases self.entries@.len() - i,
        {
            assert(self.view_entries()[i as int].0 == self.entries@[i as int].0);
            if self.entries[i].0 == id {
                proof {
                    lemma_table_pos(self.view_entries(), id);
                    assert(table_pos(self.view_entries(), id) == i);
                }
                return Some(&self.entries[i].1);
            }
            if self.entries[i].0 > id {
                proof {
                    lemma_table_pos(self.view_entries(), id);
                    assert(table_pos(self.view_entries(), id) == i);
                }
                return None;
            }
            i = i + 1;
        }
        proof {
            lemma_table_pos(self.view_entries(), id);
            assert(table_pos(self.view_entries(), id) == i);
        }
        None
    }

    /// Appends one item to a zone's list, creating the zone entry at its
    /// sorted position when it is new.
    pub fn push_item(&mut self, id: u16, item: T)
        requires
            old(self).wf(),
        ensures
            final(self).view_entries() == spec_table_add(old(self).view_entries(), id, item),
            final(self).wf(),
    {
        proof {
            lemma_table_pos(old(self).view_entries(), id);
            lemma_table_add_sorted(old(self).view_entries(), id, item);
        }
        let ghost t = self.view_entries();
        let mut i: usize = 0;
        while i < self.entries.len() && self.entries[i].0 < id
            invariant
                i <= self.entries@.len(),
                forall|j: int| 0 <= j < i ==> (#[trigger] self.view_entries()[j]).0 < id,
                self.view_entries() == t,
                self.view_entries().len() == self.entries@.len(),
            decreases self.entries@.len() - i,
        {
            assert(self.view_entries()[i as int].0 == self.entries@[i as int].0);
            i = i + 1;
        }
        proof {
            assert(i < self.entries@.len() ==> self.view_entries()[i as int].0
                == self.entries@[i as int].0);
            assert(table_pos(t, id) == i);
        }
        if i < self.entries.len() && self.entries[i].0 == id {
            let mut e = self.entries.remove(i);
            e.1.push(item);
            self.entries.insert(i, e);
            proof {
                assert(final(self).view_entries() =~= spec_table_add(t, id, item));
            }
        } else {
            let mut v: Vec<T> = Vec::new();
            v.push(item);
            self.entries.insert(i, (id, v));
            proof {
                assert(v@ =~= seq![item]);
                assert(final(self).view_entries() =~= spec_table_add(t, id, item));
            }
        }
    }

    /// Sets a zone's whole list at once, replacing any list it had.
    pub fn put_items(&mut self, id: u16, items: Vec<T>)
        requires
            old(self).wf(),
        ensures
            final(self).view_entries() == spec_table_put(old(self).view_entries(), id, items@),
            final(self).wf(),
    {
        proof {
            lemma_table_pos(old(self).view_entries(), id);
            lemma_table_put_sorted(old(self).view_entries(), id, items@);
        }
        let ghost t = self.view_entries();
        let mut i: usize = 0;
        while i < self.entries.len() && self.entries[i].0 < id
            invariant
                i <= self.entries@.len(),
                forall|j: int| 0 <= j < i ==> (#[trigger] self.view_entries()[j]).0 < id,
                self.view_entries() == t,
                self.view_entries().len() == self.entries@.len(),
            decreases self.entries@.len() - i,
        {
            assert(self.view_entries()[i as int].0 == self.entries@[i as int].0);
            i = i + 1;
        }
        proof {
            assert(i < self.entries@.len() ==> self.view_entries()[i as int].0
                == self.entries@[i as int].0);
            assert(table_pos(t, id) == i);
        }
        if i < self.entries.len() && self.entries[i].0 == id {
            let _ = self.entries.remove(i);
            self.entries.insert(i, (id, items));
            proof {
                assert(final(self).view_entries() =~= spec_table_put(t, id, items@));
            }
        } else {
            self.entries.insert(i, (id, items));
            proof {
                assert(final(self).view_entries() =~= spec_table_put(t, id, items@));
            }
        }
    }
}

} // verus!
