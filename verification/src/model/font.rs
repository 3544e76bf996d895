//! The fonts of a document, keyed by a small numeric id.

use std::collections::BTreeMap;
use vstd::prelude::*;
use vstd::std_specs::btree::{increasing_seq, spec_btree_map_iter};
use vstd::std_specs::cmp::OrdSpec;
use vstd::std_specs::iter::IteratorSpec;

verus! {

broadcast use vstd::std_specs::btree::group_btree_axioms;

pub type FontId = usize;

/// The fonts of a document. Ids are handed out in insertion order, starting
/// at 0.
#[derive(Debug, Clone, PartialEq)]
pub struct FontCatalog {
    pub fonts: BTreeMap<FontId, FontSource>,
}

/// A font as PDFium reports it, with the characters drawn in it.
#[derive(Debug, Clone, PartialEq)]
pub struct FontSource {
    pub name: String,
    pub embedded: Option<bool>,
    pub data: Option<Vec<u8>>,
    pub used_unicode: Vec<char>,
    pub mapping_proven: bool,
    pub processed: Option<ProcessedFont>,
}

/// A web font produced from an embedded font.
#[derive(Debug, Clone, PartialEq, Eq)]
pub struct ProcessedFont {
    pub asset_name: String,
    pub family_name: String,
    pub data: Vec<u8>,
    pub glyph_count: usize,
    pub advance_widths: Vec<u16>,
}

impl FontCatalog {
    /// The catalog's ids are exactly `0 .. number of fonts`, as when every
    /// font was added through `insert` or `insert_or_get`.
    pub open spec fn wf(&self) -> bool {
        forall|id: FontId| #[trigger] self.fonts@.contains_key(id) <==> id < self.fonts@.len()
    }

    /// `id` is the smallest id of a font named `name`.
    pub open spec fn is_first_named(&self, id: FontId, name: Seq<char>) -> bool {
        &&& self.fonts@.contains_key(id)
        &&& self.fonts@[id].name@ == name
        &&& forall|other: FontId|
            #![trigger self.fonts@[other]]
            other < id && self.fonts@.contains_key(other) ==> self.fonts@[other].name@ != name
    }

    /// Some font of the catalog is named `name`.
    pub open spec fn has_name(&self, name: Seq<char>) -> bool {
        exists|id: FontId| #[trigger] self.fonts@.contains_key(id) && self.fonts@[id].name@ == name
    }

    /// What `insert_or_get` does: when a font named like `font` exists, the
    /// catalog is unchanged and `id` is the first such font; otherwise `font`
    /// is added under the id `insert` would give it.
    pub open spec fn insert_or_get_outcome(&self, font: FontSource, id: FontId, after: FontCatalog) -> bool {
        if self.has_name(font.name@) {
            &&& self.is_first_named(id, font.name@)
            &&& after.fonts@ == self.fonts@
        } else {
            &&& id == self.fonts@.len()
            &&& after.fonts@ == self.fonts@.insert(id, font)
        }
    }

    /// No two fonts of the catalog share a name.
    pub open spec fn names_unique(&self) -> bool {
        forall|a: FontId, b: FontId|
            #![trigger self.fonts@[a], self.fonts@[b]]
            self.fonts@.contains_key(a) && self.fonts@.contains_key(b) && a != b ==> self.fonts@[a].name@
                != self.fonts@[b].name@
    }

    pub fn new() -> (catalog: Self)
        ensures
            catalog.fonts@ == Map::<FontId, FontSource>::empty(),
            catalog.wf(),
    {
        FontCatalog { fonts: BTreeMap::new() }
    }

    /// Adds `font` under the next id, the number of fonts before the call.
    pub fn insert(&mut self, font: FontSource) -> (id: FontId)
        ensures
            id == old(self).fonts@.len(),
            final(self).fonts@ == old(self).fonts@.insert(id, font),
            old(self).wf() ==> final(self).wf(),
    {
        let id = self.fonts.len();
        self.fonts.insert(id, font);
        proof {
            if old(self).wf() {
                assert(!old(self).fonts@.contains_key(id));
                assert forall|k: FontId| #[trigger] self.fonts@.contains_key(k) <==> k < self.fonts@.len() by {
                    if k < id {
                        assert(old(self).fonts@.contains_key(k));
                    }
                }
            }
        }
        id
    }

    /// Returns the id of the first font with the same name as `font`, or adds
    /// `font` under a new id when there is none.
    pub fn insert_or_get(&mut self, font: FontSource) -> (id: FontId)
        ensures
            old(self).insert_or_get_outcome(font, id, *final(self)),
            old(self).wf() ==> final(self).wf(),
    {
        let mut found: Option<FontId> = None;
        let entries_iter = self.fonts.iter();
        let ghost entries = entries_iter.remaining();
        assert(increasing_seq(entries.map_values(|kv: (&FontId, &FontSource)| *kv.0)));
        for entry in it: entries_iter
            invariant
                it.seq() == entries,
                found is None ==> forall|j: int|
                    0 <= j < it.index() ==> (#[trigger] entries[j]).1.name@ != font.name@,
                found matches Some(f) ==> exists|j: int|
                    0 <= j < it.index() && *(#[trigger] entries[j]).0 == f && entries[j].1.name@
                        == font.name@ && forall|k: int|
                        0 <= k < j ==> (#[trigger] entries[k]).1.name@ != font.name@,
        {
            let (id, existing) = entry;
            if found.is_none() && existing.name == font.name {
                found = Some(*id);
            }
        }
        match found {
            Some(id) => {
                proof {
                    self.lemma_found_is_first(entries, id, font.name@);
                }
                id
            },
            None => {
                proof {
                    self.lemma_absent_name(entries, font.name@);
                }
                self.insert(font)
            },
        }
    }

    proof fn lemma_absent_name(&self, entries: Seq<(&FontId, &FontSource)>, name: Seq<char>)
        requires
            entries == spec_btree_map_iter(&self.fonts).remaining(),
            forall|j: int| 0 <= j < entries.len() ==> (#[trigger] entries[j]).1.name@ != name,
        ensures
            !self.has_name(name),
    {
        if self.has_name(name) {
            let id = choose|id: FontId| #[trigger] self.fonts@.contains_key(id) && self.fonts@[id].name@ == name;
            assert(entries.contains((&id, &self.fonts@[id])));
            let j = choose|j: int| 0 <= j < entries.len() && entries[j] == (&id, &self.fonts@[id]);
            assert(entries[j].1.name@ == name);
        }
    }

    proof fn lemma_found_is_first(&self, entries: Seq<(&FontId, &FontSource)>, f: FontId, name: Seq<char>)
        requires
            entries == spec_btree_map_iter(&self.fonts).remaining(),
            increasing_seq(entries.map_values(|kv: (&FontId, &FontSource)| *kv.0)),
            exists|j: int|
                0 <= j < entries.len() && *(#[trigger] entries[j]).0 == f && entries[j].1.name@ == name
                    && forall|k: int| 0 <= k < j ==> (#[trigger] entries[k]).1.name@ != name,
        ensures
            self.is_first_named(f, name),
    {
        let j = choose|j: int|
            0 <= j < entries.len() && *(#[trigger] entries[j]).0 == f && entries[j].1.name@ == name
                && forall|k: int| 0 <= k < j ==> (#[trigger] entries[k]).1.name@ != name;
        let keys = entries.map_values(|kv: (&FontId, &FontSource)| *kv.0);
        assert(self.fonts@.contains_key(*entries[j].0));
        assert forall|other: FontId|
            other < f && self.fonts@.contains_key(other) implies #[trigger] self.fonts@[other].name@ != name by {
            assert(entries.contains((&other, &self.fonts@[other])));
            let p = choose|p: int| 0 <= p < entries.len() && entries[p] == (&other, &self.fonts@[other]);
            assert(keys[p] == other);
            assert(keys[j] == f);
            if p > j {
                assert(keys[j].cmp_spec(&keys[p]) is Less);
            }
        }
    }
}

/// At most one id is the first of a name.
proof fn lemma_first_named_unique(catalog: FontCatalog, a: FontId, b: FontId, name: Seq<char>)
    requires
        catalog.is_first_named(a, name),
        catalog.is_first_named(b, name),
    ensures
        a == b,
{
    if a < b {
        assert(catalog.fonts@[a].name@ != name);
    } else if b < a {
        assert(catalog.fonts@[b].name@ != name);
    }
}

/// Asking twice for a font of the same name gives the same id, and the
/// second request leaves the catalog unchanged.
pub proof fn law_insert_or_get_is_idempotent(
    start: FontCatalog,
    font: FontSource,
    first_id: FontId,
    middle: FontCatalog,
    again: FontSource,
    second_id: FontId,
    end: FontCatalog,
)
    requires
        start.insert_or_get_outcome(font, first_id, middle),
        middle.insert_or_get_outcome(again, second_id, end),
        again.name@ == font.name@,
    ensures
        second_id == first_id,
        end.fonts@ == middle.fonts@,
{
    let name = font.name@;
    if start.has_name(name) {
        assert(middle.is_first_named(first_id, name));
        assert(middle.has_name(name));
        lemma_first_named_unique(middle, first_id, second_id, name);
    } else {
        assert(middle.fonts@.contains_key(first_id));
        assert(middle.fonts@[first_id].name@ == name);
        assert(middle.has_name(name));
        assert(middle.is_first_named(first_id, name)) by {
            assert forall|other: FontId|
                other < first_id && middle.fonts@.contains_key(other) implies #[trigger] middle.fonts@[other].name@
                != name by {
                assert(start.fonts@.contains_key(other));
            }
        }
        lemma_first_named_unique(middle, first_id, second_id, name);
    }
}

/// Adding fonts through `insert_or_get` keeps font names unique.
pub proof fn law_insert_or_get_keeps_names_unique(
    start: FontCatalog,
    font: FontSource,
    id: FontId,
    end: FontCatalog,
)
    requires
        start.names_unique(),
        start.insert_or_get_outcome(font, id, end),
    ensures
        end.names_unique(),
{
    if !start.has_name(font.name@) {
        assert forall|a: FontId, b: FontId|
            end.fonts@.contains_key(a) && end.fonts@.contains_key(b) && a != b implies #[trigger] end.fonts@[a].name@
            != #[trigger] end.fonts@[b].name@ by {
            if a == id {
                assert(start.fonts@.contains_key(b));
            } else if b == id {
                assert(start.fonts@.contains_key(a));
            } else {
                assert(start.fonts@[a] == end.fonts@[a]);
            }
        }
    }
}

impl Default for FontCatalog {
    fn default() -> (catalog: Self)
        ensures
            catalog.fonts@ == Map::<FontId, FontSource>::empty(),
    {
        Self::new()
    }
}

} // verus!
