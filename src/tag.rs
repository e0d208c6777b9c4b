//! Tags that notes can carry, with a count of the notes that refer to each.
use vstd::prelude::*;
use std::collections::BTreeMap;

verus! {

/// The identifier of a tag.
#[derive(Clone, Copy, PartialEq, Eq, Structural, PartialOrd, Ord, Hash, Debug)]
pub struct TagID(pub u8);

/// A tag: its identifier, its name and how many notes refer to it.
#[derive(Clone, Debug)]
pub struct Tag {
    pub id: TagID,
    pub name: String,
    pub refs: u8,
}

/// Every tag, by identifier.
#[derive(Debug)]
pub struct TagCollection {
    pub tags: BTreeMap<u8, Tag>,
    pub max_id: TagID,
}

/// The identifiers of a collection's tags, handed out in increasing order.
pub struct TagCollectionIter {
    pub ids: Vec<TagID>,
    pub pos: usize,
}

impl TagCollectionIter {
    /// The next identifier, if any is left.
    pub fn next(&mut self) -> (r: Option<TagID>)
        ensures
            old(self).pos < old(self).ids@.len() ==> r == Some(old(self).ids@[old(self).pos as int])
                && final(self).pos == old(self).pos + 1,
            old(self).pos >= old(self).ids@.len() ==> r is None && final(self).pos == old(self).pos,
            final(self).ids == old(self).ids,
    {
        if self.pos < self.ids.len() {
            let id = self.ids[self.pos];
            self.pos = self.pos + 1;
            Some(id)
        } else {
            None
        }
    }
}

/// `k` is the greatest key of `m`.
pub open spec fn greatest_key(m: Map<u8, Tag>, k: u8) -> bool {
    m.contains_key(k) && forall|j: u8| #[trigger] m.contains_key(j) ==> j <= k
}

/// Relies on `BTreeMap::get_mut`: a mutable reference to the value under `k`, if there is
/// one; what is written through it is what the map then holds under `k`.
#[verifier::external_body]
pub(crate) fn value_mut<K: Ord, V>(m: &mut BTreeMap<K, V>, k: K) -> (r: Option<&mut V>)
    requires
        vstd::laws_cmp::obeys_cmp::<K>(),
    ensures
        match r {
            Some(v) => old(m)@.contains_key(k) && *v == old(m)@[k] && final(m)@ == old(
                m,
            )@.insert(k, *final(v)),
            None => !old(m)@.contains_key(k) && final(m)@ == old(m)@,
        },
{
    m.get_mut(&k)
}

impl TagCollection {
    /// The tag stored under `id`, for changing in place, if there is one.
    pub fn get_mut(&mut self, id: TagID) -> (r: Option<&mut Tag>)
        ensures
            final(self).max_id == old(self).max_id,
            match r {
                Some(t) => old(self).tags@.contains_key(id.0) && *t == old(self).tags@[id.0]
                    && final(self).tags@ == old(self).tags@.insert(id.0, *final(t)),
                None => !old(self).tags@.contains_key(id.0) && final(self).tags@ == old(
                    self,
                ).tags@,
            },
    {
        broadcast use vstd::laws_cmp::group_laws_cmp;

        value_mut(&mut self.tags, id.0)
    }

    /// An empty collection.
    pub fn new() -> (r: TagCollection)
        ensures
            r.tags@ == Map::<u8, Tag>::empty(),
            r.max_id == TagID(0),
    {
        TagCollection { tags: BTreeMap::new(), max_id: TagID(0) }
    }

    /// The greatest identifier in use, if any tag is stored.
    fn last_key(&self) -> (r: Option<u8>)
        ensures
            r matches Some(k) ==> greatest_key(self.tags@, k),
            r is None ==> forall|j: u8| !#[trigger] self.tags@.contains_key(j),
    {
        broadcast use vstd::std_specs::btree::group_btree_axioms, vstd::laws_cmp::group_laws_cmp;

        let mut k: u8 = 255;
        loop
            invariant
                forall|j: u8| k < j ==> !#[trigger] self.tags@.contains_key(j),
            decreases k,
        {
            if self.tags.contains_key(&k) {
                return Some(k);
            }
            if k == 0 {
                return None;
            }
            k = k - 1;
        }
    }

    /// The identifiers of all tags, in increasing order.
    pub fn iter(&self) -> (r: TagCollectionIter)
        ensures
            r.pos == 0,
            forall|i: int| 0 <= i < r.ids@.len() ==> self.tags@.contains_key(#[trigger] r.ids@[i].0),
            forall|j: u8| #[trigger] self.tags@.contains_key(j) ==> exists|i: int|
                0 <= i < r.ids@.len() && r.ids@[i].0 == j,
            forall|i: int, k: int| 0 <= i < k < r.ids@.len() ==> r.ids@[i].0 < r.ids@[k].0,
    {
        broadcast use vstd::std_specs::btree::group_btree_axioms, vstd::laws_cmp::group_laws_cmp;

        let mut ids: Vec<TagID> = Vec::new();
        let mut k: u16 = 0;
        while k < 256
            invariant
                k <= 256,
                forall|i: int| 0 <= i < ids@.len() ==> self.tags@.contains_key(#[trigger] ids@[i].0),
                forall|i: int| 0 <= i < ids@.len() ==> (#[trigger] ids@[i].0) < k,
                forall|j: u8| #[trigger] self.tags@.contains_key(j) && (j as u16) < k ==> exists|i: int|
                    0 <= i < ids@.len() && ids@[i].0 == j,
                forall|i: int, m: int| 0 <= i < m < ids@.len() ==> ids@[i].0 < ids@[m].0,
            decreases 256 - k,
        {
            let key = k as u8;
            let ghost before = ids@;
            let present = self.tags.contains_key(&key);
            if present {
                ids.push(TagID(key));
                assert(ids@[ids@.len() - 1].0 == key);
            }
            proof {
                assert forall|j: u8| #[trigger] self.tags@.contains_key(j) && (j as u16) < k + 1
                    implies exists|i: int| 0 <= i < ids@.len() && ids@[i].0 == j by {
                    if (j as u16) < k {
                        let i = choose|i: int| 0 <= i < before.len() && before[i].0 == j;
                        assert(ids@[i] == before[i]);
                    } else {
                        assert(j == key);
                        assert(ids@[ids@.len() - 1].0 == j);
                    }
                }
            }
            k = k + 1;
        }
        let ghost ids_view = ids@;
        let r = TagCollectionIter { ids, pos: 0 };
        assert forall|j: u8| #[trigger] self.tags@.contains_key(j) implies exists|i: int|
            0 <= i < r.ids@.len() && r.ids@[i].0 == j by {
            assert(k == 256);
            assert((j as u16) < k);
            let i = choose|i: int| 0 <= i < ids_view.len() && ids_view[i].0 == j;
            assert(r.ids@[i].0 == j);
        }
        r
    }

    /// The tag stored under `id`, if any.
    pub fn get(&self, id: TagID) -> (r: Option<&Tag>)
        ensures
            match r {
                Some(t) => self.tags@.contains_key(id.0) && *t == self.tags@[id.0],
                None => !self.tags@.contains_key(id.0),
            },
    {
        broadcast use vstd::std_specs::btree::group_btree_axioms, vstd::laws_cmp::group_laws_cmp;

        self.tags.get(&id.0)
    }

    /// Adds a tag named `name` under the identifier after the greatest one in use (0 for an
    /// empty collection), with no references. Returns `false`, and adds nothing, where the
    /// greatest identifier is already 255.
    pub fn add(&mut self, name: String) -> (r: bool)
        ensures
            final(self).max_id == old(self).max_id,
            ({
                let next = if old(self).tags@.dom().is_empty() {
                    Some(0u8)
                } else {
                    let k = choose|k: u8| greatest_key(old(self).tags@, k);
                    if k < 255 {
                        Some((k + 1) as u8)
                    } else {
                        None
                    }
                };
                match next {
                    Some(id) => r && final(self).tags@ == old(self).tags@.insert(
                        id,
                        Tag { id: TagID(id), name, refs: 0 },
                    ),
                    None => !r && final(self).tags@ == old(self).tags@,
                }
            }),
    {
        broadcast use vstd::std_specs::btree::group_btree_axioms, vstd::laws_cmp::group_laws_cmp;

        let id = match self.last_key() {
            Some(k) => {
                if k == 255 {
                    return false;
                }
                k + 1
            },
            None => 0,
        };
        self.tags.insert(id, Tag { id: TagID(id), name, refs: 0 });
        true
    }

    /// Counts one more reference to the tag under `id`, if it exists; the count stops at 255.
    pub fn increase_ref(&mut self, id: &TagID)
        ensures
            final(self).max_id == old(self).max_id,
            old(self).tags@.contains_key(id.0) ==> final(self).tags@ == old(self).tags@.insert(
                id.0,
                Tag {
                    refs: if old(self).tags@[id.0].refs < 255 {
                        (old(self).tags@[id.0].refs + 1) as u8
                    } else {
                        255
                    },
                    ..old(self).tags@[id.0]
                },
            ),
            !old(self).tags@.contains_key(id.0) ==> final(self).tags@ == old(self).tags@,
    {
        broadcast use vstd::std_specs::btree::group_btree_axioms, vstd::laws_cmp::group_laws_cmp;

        if let Some(t) = self.tags.remove(&id.0) {
            let refs = if t.refs < 255 {
                t.refs + 1
            } else {
                255
            };
            self.tags.insert(id.0, Tag { refs, ..t });
            assert(self.tags@ =~= old(self).tags@.insert(id.0, Tag { refs, ..t }));
        }
    }

    /// Counts one reference less to the tag under `id`, if it exists; the count stops at 0.
    pub fn decrease_ref(&mut self, id: &TagID)
        ensures
            final(self).max_id == old(self).max_id,
            old(self).tags@.contains_key(id.0) && old(self).tags@[id.0].refs > 0
                ==> final(self).tags@ == old(self).tags@.insert(
                id.0,
                Tag { refs: (old(self).tags@[id.0].refs - 1) as u8, ..old(self).tags@[id.0] },
            ),
            !(old(self).tags@.contains_key(id.0) && old(self).tags@[id.0].refs > 0)
                ==> final(self).tags@ == old(self).tags@,
    {
        broadcast use vstd::std_specs::btree::group_btree_axioms, vstd::laws_cmp::group_laws_cmp;

        if let Some(t) = self.tags.remove(&id.0) {
            if t.refs > 0 {
                let refs = t.refs - 1;
                self.tags.insert(id.0, Tag { refs, ..t });
                assert(self.tags@ =~= old(self).tags@.insert(id.0, Tag { refs, ..t }));
            } else {
                self.tags.insert(id.0, t);
                assert(self.tags@ =~= old(self).tags@);
            }
        }
    }

    /// Removes the tag under `id`; where it was the recorded greatest identifier, the record
    /// becomes the greatest identifier left (or 0).
    pub fn remove_by_id(&mut self, id: &TagID)
        ensures
            final(self).tags@ == old(self).tags@.remove(id.0),
            old(self).max_id != *id ==> final(self).max_id == old(self).max_id,
            old(self).max_id == *id ==> if final(self).tags@.dom().is_empty() {
                final(self).max_id == TagID(0)
            } else {
                greatest_key(final(self).tags@, final(self).max_id.0)
            },
    {
        broadcast use vstd::std_specs::btree::group_btree_axioms, vstd::laws_cmp::group_laws_cmp;

        self.tags.remove(&id.0);
        if self.max_id == *id {
            self.max_id = match self.last_key() {
                Some(k) => TagID(k),
                None => TagID(0),
            };
        }
    }
}

} // verus!
