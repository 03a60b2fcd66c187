//! The two lookup indices built from one DBC text.
//!
//! Both are association lists in declaration order; a later entry for the
//! same key overrides an earlier one, which models the fold in
//! [`crate::dbc::spec_name_index`] and [`crate::dbc::spec_id_index`] exactly.
//! Names are carried as their UTF-8 bytes in every contract.
use vstd::prelude::*;
use crate::dbc::bytes_eq;

verus! {

/// The map described by an association list whose later entries win.
pub open spec fn spec_assoc<K, V>(entries: Seq<(K, V)>) -> Map<K, V>
    decreases entries.len(),
{
    if entries.len() == 0 {
        Map::<K, V>::empty()
    } else {
        spec_assoc(entries.drop_last()).insert(entries.last().0, entries.last().1)
    }
}

/// The Name Index: message name bytes to extended identifier.
pub struct NameIndex {
    entries: Vec<(Vec<u8>, u32)>,
}

impl NameIndex {
    /// The entries with byte-sequence views.
    pub closed spec fn view_entries(self) -> Seq<(Seq<u8>, u32)> {
        self.entries@.map_values(|p: (Vec<u8>, u32)| (p.0@, p.1))
    }

    /// The mapping this index represents.
    pub open spec fn model(self) -> Map<Seq<u8>, u32> {
        spec_assoc(self.view_entries())
    }

    /// An index with no entries.
    pub fn empty() -> (r: Self)
        ensures
            r.view_entries() =~= Seq::<(Seq<u8>, u32)>::empty(),
    {
        let r = NameIndex { entries: Vec::new() };
        proof {
            assert(r.view_entries() =~= Seq::<(Seq<u8>, u32)>::empty());
        }
        r
    }

    /// Record one declaration; it overrides any earlier entry of this name.
    pub fn push_entry(&mut self, name: Vec<u8>, id: u32)
        ensures
            final(self).view_entries() =~= old(self).view_entries().push((name@, id)),
            final(self).model() == old(self).model().insert(name@, id),
    {
        let ghost old_view = self.view_entries();
        let ghost name_view = name@;
        self.entries.push((name, id));
        proof {
            assert(self.view_entries() =~= old_view.push((name_view, id)));
            assert(self.view_entries().drop_last() =~= old_view);
        }
    }

    /// How many names are indexed (entries for the same name count once each).
    pub fn len(&self) -> (r: usize)
        ensures
            r == self.view_entries().len(),
    {
        self.entries.len()
    }

    /// Look a message name up; yields the identifier of its last declaration.
    pub fn lookup(&self, name: &[u8]) -> (r: Option<u32>)
        ensures
            r == if self.model().dom().contains(name@) {
                Some(self.model()[name@])
            } else {
                None::<u32>
            },
    {
        let ghost whole = self.view_entries();
        let mut k: usize = self.entries.len();
        proof {
            assert(whole.take(whole.len() as int) =~= whole);
        }
        while k > 0
            invariant
                k <= whole.len(),
                whole == self.view_entries(),
                self.model().dom().contains(name@) == spec_assoc(
                    whole.take(k as int),
                ).dom().contains(name@),
                self.model().dom().contains(name@) ==> self.model()[name@] == spec_assoc(
                    whole.take(k as int),
                )[name@],
            decreases k,
        {
            let ghost prefix = whole.take(k as int);
            proof {
                assert(prefix.drop_last() =~= whole.take(k - 1));
                assert(prefix.last() == whole[k - 1]);
            }
            if bytes_eq(self.entries[k - 1].0.as_slice(), name) {
                return Some(self.entries[k - 1].1);
            }
            k = k - 1;
        }
        proof {
            assert(whole.take(0) =~= Seq::<(Seq<u8>, u32)>::empty());
        }
        None
    }
}

/// The identifier index: extended identifier to the declared signal names of
/// that message, in order.
pub struct CanIndex {
    entries: Vec<(u32, Vec<String>)>,
}

impl CanIndex {
    /// The entries with names as their UTF-8 byte sequences.
    pub closed spec fn view_entries(self) -> Seq<(u32, Seq<Seq<u8>>)> {
        self.entries@.map_values(
            |p: (u32, Vec<String>)|
                (p.0, p.1@.map_values(|s: String| vstd::utf8::encode_utf8(s@))),
        )
    }

    /// The mapping this index represents.
    pub open spec fn model(self) -> Map<u32, Seq<Seq<u8>>> {
        spec_assoc(self.view_entries())
    }

    /// The byte sequences of a list of signal names.
    pub open spec fn spec_names_of(names: Seq<String>) -> Seq<Seq<u8>> {
        names.map_values(|s: String| vstd::utf8::encode_utf8(s@))
    }

    /// An index with no entries.
    pub fn empty() -> (r: Self)
        ensures
            r.view_entries() =~= Seq::<(u32, Seq<Seq<u8>>)>::empty(),
    {
        let r = CanIndex { entries: Vec::new() };
        proof {
            assert(r.view_entries() =~= Seq::<(u32, Seq<Seq<u8>>)>::empty());
        }
        r
    }

    /// Open a message: its identifier starts over with no signals.
    pub fn begin_message(&mut self, id: u32)
        ensures
            final(self).view_entries() =~= old(self).view_entries().push(
                (id, Seq::<Seq<u8>>::empty()),
            ),
            final(self).model() == old(self).model().insert(id, Seq::<Seq<u8>>::empty()),
            final(self).view_entries().len() > 0,
            final(self).view_entries().last().0 == id,
    {
        let ghost old_view = self.view_entries();
        self.entries.push((id, Vec::new()));
        proof {
            assert(self.view_entries() =~~= old_view.push((id, Seq::<Seq<u8>>::empty())));
            assert(self.view_entries().drop_last() =~= old_view);
        }
    }

    /// Append one signal name to the most recently opened message.
    pub fn push_signal(&mut self, name: String)
        requires
            old(self).view_entries().len() > 0,
        ensures
            ({
                let old_view = old(self).view_entries();
                let id = old_view.last().0;
                &&& final(self).view_entries() =~= old_view.drop_last().push(
                    (id, old_view.last().1.push(vstd::utf8::encode_utf8(name@))),
                )
                &&& final(self).model() == old(self).model().insert(
                    id,
                    old_view.last().1.push(vstd::utf8::encode_utf8(name@)),
                )
                &&& final(self).view_entries().len() > 0
                &&& final(self).view_entries().last().0 == id
            }),
    {
        let ghost old_view = self.view_entries();
        let ghost name_bytes = vstd::utf8::encode_utf8(name@);
        let mut last = match self.entries.pop() {
            Some(p) => p,
            None => {
                proof {
                    assert(false);
                }
                unreached()
            },
        };
        last.1.push(name);
        let ghost id = last.0;
        self.entries.push(last);
        proof {
            assert(self.view_entries() =~~= old_view.drop_last().push(
                (id, old_view.last().1.push(name_bytes)),
            ));
            assert(self.view_entries().drop_last() =~= old_view.drop_last());
            assert(spec_assoc(old_view) == spec_assoc(old_view.drop_last()).insert(
                old_view.last().0,
                old_view.last().1,
            ));
            assert(self.model() =~~= old(self).model().insert(
                id,
                old_view.last().1.push(name_bytes),
            ));
        }
    }

    /// The signal names of one identifier, or nothing when it is unknown.
    pub fn get(&self, id: u32) -> (r: Option<&Vec<String>>)
        ensures
            r.is_some() == self.model().dom().contains(id),
            r matches Some(v) ==> self.model().dom().contains(id) && Self::spec_names_of(v@)
                == self.model()[id],
    {
        let ghost whole = self.view_entries();
        let mut k: usize = self.entries.len();
        proof {
            assert(whole.take(whole.len() as int) =~= whole);
        }
        while k > 0
            invariant
                k <= whole.len(),
                whole == self.view_entries(),
                self.model().dom().contains(id) == spec_assoc(
                    whole.take(k as int),
                ).dom().contains(id),
                self.model().dom().contains(id) ==> self.model()[id] == spec_assoc(
                    whole.take(k as int),
                )[id],
            decreases k,
        {
            let ghost prefix = whole.take(k as int);
            proof {
                assert(prefix.drop_last() =~= whole.take(k - 1));
                assert(prefix.last() == whole[k - 1]);
            }
            if self.entries[k - 1].0 == id {
                return Some(&self.entries[k - 1].1);
            }
            k = k - 1;
        }
        proof {
            assert(whole.take(0) =~= Seq::<(u32, Seq<Seq<u8>>)>::empty());
        }
        None
    }
}

} // verus!
