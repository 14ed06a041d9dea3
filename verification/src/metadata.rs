//! Per-group auxiliary data of a palette: an optional display label, an
//! optional name, and the flag recording that the group's preparation hook
//! has run. Entries are created lazily on first write; an absent entry reads
//! as all-default values.

use vstd::prelude::*;
use crate::address::Group;
use crate::assoc::{assoc_map_of, has_key, lemma_assoc_map_of, lemma_assoc_update, unique_keys};
use crate::assoc::lemma_assoc_insert;

verus! {

/// Auxiliary data attached to one address group.
#[derive(Debug)]
pub struct Metadata {
    /// Display label provided by a palette format.
    pub format_label: Option<String>,
    /// Name provided by the user or a palette format.
    pub name: Option<String>,
    /// Whether the format's preparation hook has run for the group.
    pub initialized: bool,
}

/// The mathematical value of a `Metadata` entry.
pub struct MetaView {
    pub format_label: Option<Seq<char>>,
    pub name: Option<Seq<char>>,
    pub initialized: bool,
}

impl View for Metadata {
    type V = MetaView;

    open spec fn view(&self) -> MetaView {
        MetaView {
            format_label: match self.format_label {
                Some(l) => Some(l@),
                None => None,
            },
            name: match self.name {
                Some(n) => Some(n@),
                None => None,
            },
            initialized: self.initialized,
        }
    }
}

/// The value an absent entry stands for.
pub open spec fn default_meta() -> MetaView {
    MetaView { format_label: None, name: None, initialized: false }
}

impl Default for Metadata {
    /// An entry with no label, no name, and the preparation flag clear.
    fn default() -> (r: Metadata)
        ensures
            r@ == default_meta(),
    {
        Metadata { format_label: None, name: None, initialized: false }
    }
}

/// The metadata of all groups of a palette: an association vector with
/// pairwise distinct group keys, viewed as a map from groups to entries.
#[derive(Debug)]
pub struct MetadataMap {
    pub entries: Vec<(Group, Metadata)>,
}

impl View for MetadataMap {
    type V = Map<Group, MetaView>;

    open spec fn view(&self) -> Map<Group, MetaView> {
        assoc_map_of(self.entries@, |m: Metadata| m@)
    }
}

impl MetadataMap {
    /// Each group appears in at most one entry.
    pub open spec fn wf(&self) -> bool {
        unique_keys(self.entries@)
    }

    /// The entry's value under the group, or the defaults if absent.
    pub open spec fn spec_entry(&self, group: Group) -> MetaView {
        if self@.contains_key(group) {
            self@[group]
        } else {
            default_meta()
        }
    }

    /// Whether the group's preparation hook has run.
    pub open spec fn spec_is_initialized(&self, group: Group) -> bool {
        self.spec_entry(group).initialized
    }

    /// The map after an upsert that rewrites one field of the group's entry.
    pub open spec fn spec_upsert(
        &self,
        group: Group,
        entry: MetaView,
    ) -> Map<Group, MetaView> {
        self@.insert(group, entry)
    }

    pub fn new() -> (r: MetadataMap)
        ensures
            r.wf(),
            r@ == Map::<Group, MetaView>::empty(),
    {
        MetadataMap { entries: Vec::new() }
    }

    /// Index of the group's entry, if the group has one.
    fn find(&self, group: Group) -> (r: Option<usize>)
        ensures
            match r {
                Some(i) => i < self.entries@.len() && self.entries@[i as int].0 == group,
                None => !has_key(self.entries@, group),
            },
    {
        let mut i: usize = 0;
        while i < self.entries.len()
            invariant
                i <= self.entries@.len(),
                forall|j: int| 0 <= j < i ==> (#[trigger] self.entries@[j]).0 != group,
            decreases self.entries@.len() - i,
        {
            if self.entries[i].0 == group {
                return Some(i);
            }
            i = i + 1;
        }
        None
    }

    /// The metadata stored for the group, if any entry exists.
    pub fn get(&self, group: Group) -> (r: Option<&Metadata>)
        requires
            self.wf(),
        ensures
            match r {
                Some(m) => self@.contains_key(group) && self@[group] == m@,
                None => !self@.contains_key(group),
            },
    {
        proof {
            lemma_assoc_map_of(self.entries@, |m: Metadata| m@);
        }
        match self.find(group) {
            Some(i) => Some(&self.entries[i].1),
            None => None,
        }
    }

    /// Whether the group's preparation hook has run; an absent entry reads
    /// as not initialized.
    pub fn is_initialized(&self, group: Group) -> (r: bool)
        requires
            self.wf(),
        ensures
            r == self.spec_is_initialized(group),
    {
        match self.get(group) {
            Some(m) => m.initialized,
            None => false,
        }
    }

    /// Replaces the entry at index `i`, which must carry the key `group`.
    fn set_entry(&mut self, i: usize, group: Group, m: Metadata)
        requires
            old(self).wf(),
            i < old(self).entries@.len(),
            old(self).entries@[i as int].0 == group,
        ensures
            final(self).wf(),
            final(self)@ == old(self)@.insert(group, m@),
    {
        let ghost s = self.entries@;
        self.entries.remove(i);
        self.entries.insert(i, (group, m));
        proof {
            let v = self.entries@[i as int];
            assert(self.entries@ =~= s.update(i as int, v));
            lemma_assoc_update(s, |x: Metadata| x@, i as int, v);
        }
    }

    /// Appends an entry for a group that has none yet.
    fn push_entry(&mut self, group: Group, m: Metadata)
        requires
            old(self).wf(),
            !old(self)@.contains_key(group),
        ensures
            final(self).wf(),
            final(self)@ == old(self)@.insert(group, m@),
    {
        let ghost s = self.entries@;
        let ghost v = (group, m);
        proof {
            lemma_assoc_map_of(s, |x: Metadata| x@);
        }
        self.entries.push((group, m));
        proof {
            assert(self.entries@ =~= s.insert(s.len() as int, v));
            lemma_assoc_insert(s, |x: Metadata| x@, s.len() as int, v);
        }
    }

    /// A copy of the group's current entry, or a default entry if it has
    /// none; with the entry's index if one exists.
    fn read_entry(&self, group: Group) -> (r: (Option<usize>, Metadata))
        requires
            self.wf(),
        ensures
            r.1@ == self.spec_entry(group),
            match r.0 {
                Some(i) => i < self.entries@.len() && self.entries@[i as int].0 == group
                    && self@.contains_key(group),
                None => !self@.contains_key(group),
            },
    {
        proof {
            lemma_assoc_map_of(self.entries@, |m: Metadata| m@);
        }
        match self.find(group) {
            Some(i) => {
                let e = &self.entries[i].1;
                let m = Metadata {
                    format_label: clone_opt_string(&e.format_label),
                    name: clone_opt_string(&e.name),
                    initialized: e.initialized,
                };
                (Some(i), m)
            },
            None => (None, Metadata::default()),
        }
    }

    /// Upserts the group's entry and sets its label.
    pub fn set_label(&mut self, group: Group, format_label: String)
        requires
            old(self).wf(),
        ensures
            final(self).wf(),
            final(self)@ == old(self).spec_upsert(
                group,
                MetaView { format_label: Some(format_label@), ..old(self).spec_entry(group) },
            ),
    {
        let (at, mut m) = self.read_entry(group);
        m.format_label = Some(format_label);
        match at {
            Some(i) => self.set_entry(i, group, m),
            None => self.push_entry(group, m),
        }
    }

    /// Upserts the group's entry and sets its name.
    pub fn set_name(&mut self, group: Group, name: String)
        requires
            old(self).wf(),
        ensures
            final(self).wf(),
            final(self)@ == old(self).spec_upsert(
                group,
                MetaView { name: Some(name@), ..old(self).spec_entry(group) },
            ),
    {
        let (at, mut m) = self.read_entry(group);
        m.name = Some(name);
        match at {
            Some(i) => self.set_entry(i, group, m),
            None => self.push_entry(group, m),
        }
    }

    /// Upserts the group's entry and sets its preparation flag.
    pub fn set_initialized(&mut self, group: Group, value: bool)
        requires
            old(self).wf(),
        ensures
            final(self).wf(),
            final(self)@ == old(self).spec_upsert(
                group,
                MetaView { initialized: value, ..old(self).spec_entry(group) },
            ),
    {
        let (at, mut m) = self.read_entry(group);
        m.initialized = value;
        match at {
            Some(i) => self.set_entry(i, group, m),
            None => self.push_entry(group, m),
        }
    }

    /// The group's label, if its entry holds one.
    pub fn get_label(&self, group: Group) -> (r: Option<&str>)
        requires
            self.wf(),
        ensures
            match r {
                Some(l) => self.spec_entry(group).format_label == Some(l@),
                None => self.spec_entry(group).format_label is None,
            },
    {
        match self.get(group) {
            Some(m) => match &m.format_label {
                Some(l) => Some(l.as_str()),
                None => None,
            },
            None => None,
        }
    }

    /// The group's name, if its entry holds one.
    pub fn get_name(&self, group: Group) -> (r: Option<&str>)
        requires
            self.wf(),
        ensures
            match r {
                Some(n) => self.spec_entry(group).name == Some(n@),
                None => self.spec_entry(group).name is None,
            },
    {
        match self.get(group) {
            Some(m) => match &m.name {
                Some(n) => Some(n.as_str()),
                None => None,
            },
            None => None,
        }
    }
}

/// Copy of an optional string with the same contents.
fn clone_opt_string(s: &Option<String>) -> (r: Option<String>)
    ensures
        (match r {
            Some(x) => match s {
                Some(y) => x@ == y@,
                None => false,
            },
            None => s is None,
        }),
        (match s {
            Some(y) => r matches Some(x) && x@ == y@,
            None => r is None,
        }),
{
    match s {
        Some(x) => Some(x.clone()),
        None => None,
    }
}

} // verus!
