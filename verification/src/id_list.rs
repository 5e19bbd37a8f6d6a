//! The lists of the pages: items under ids handed out in increasing order,
//! shown in the order of a list of those ids, with one of them selected.

use vstd::prelude::*;
use crate::outside::map_get_mut;
use std::collections::BTreeMap;

verus! {

/// An entry of a page's list, by the id of the item it shows.
#[derive(Copy, Clone, Debug, PartialEq, Eq, Hash, Structural)]
pub struct DndItem {
    pub key_id: u64,
}

impl DndItem {
    /// The entry for the item `k`.
    pub fn new(k: u64) -> (d: DndItem)
        ensures
            d.key_id == k,
    {
        DndItem { key_id: k }
    }
}

/// Where the entry for `id` stands in `items`, if anywhere.
pub fn find_item(items: &Vec<DndItem>, id: u64) -> (r: Option<usize>)
    ensures
        match r {
            Some(i) => i < items@.len() && item_ids(items@)[i as int] == id
                && forall|j: int| 0 <= j < i ==> item_ids(items@)[j] != id,
            None => !item_ids(items@).contains(id),
        },
{
    let mut i: usize = 0;
    while i < items.len()
        invariant
            i <= items@.len(),
            forall|j: int| 0 <= j < i ==> item_ids(items@)[j] != id,
        decreases items@.len() - i,
    {
        if items[i].key_id == id {
            return Some(i);
        }
        i += 1;
    }
    None
}

/// The ids of the entries of a list, in order.
pub open spec fn item_ids(items: Seq<DndItem>) -> Seq<u64> {
    Seq::new(items.len(), |i: int| items[i].key_id)
}

/// Items under ids, listed in an order of their own, with a selected id
/// and the last id handed out.
pub struct IdList<T> {
    pub id_count: u64,
    pub selected_id: u64,
    pub data_map: BTreeMap<u64, T>,
    pub dnd_items: Vec<DndItem>,
}

impl<T> IdList<T> {
    /// The ids in list order.
    pub open spec fn ids(&self) -> Seq<u64> {
        item_ids(self.dnd_items@)
    }

    /// The items by id.
    pub open spec fn map(&self) -> Map<u64, T> {
        self.data_map@
    }

    /// Each id is listed once, the listed ids are exactly those of the
    /// items, and every id lies between 1 and the last one handed out.
    pub open spec fn wf(&self) -> bool {
        &&& self.ids().no_duplicates()
        &&& forall|i: int| 0 <= i < self.ids().len() ==> self.map().contains_key(#[trigger] self.ids()[i])
        &&& forall|id: u64| #[trigger] self.map().contains_key(id) ==> self.ids().contains(id)
        &&& forall|i: int| 0 <= i < self.ids().len() ==> 1 <= #[trigger] self.ids()[i] <= self.id_count
    }

    /// The items in list order.
    pub open spec fn values(&self) -> Seq<T> {
        Seq::new(self.ids().len(), |i: int| self.map()[self.ids()[i]])
    }

    /// An empty list with nothing handed out and `selected` selected.
    pub fn new(selected: u64) -> (l: Self)
        ensures
            l.wf(),
            l.id_count == 0,
            l.selected_id == selected,
            l.ids() == Seq::<u64>::empty(),
            l.map() == Map::<u64, T>::empty(),
            l.values() == Seq::<T>::empty(),
    {
        let l = IdList { id_count: 0, selected_id: selected, data_map: BTreeMap::new(), dnd_items: Vec::new() };
        assert(l.ids() =~= Seq::<u64>::empty());
        assert(l.map() =~= Map::<u64, T>::empty());
        assert(l.values() =~= Seq::<T>::empty());
        l
    }

    /// The number of items.
    pub fn len(&self) -> (n: usize)
        requires
            self.wf(),
        ensures
            n == self.values().len(),
    {
        proof {
            self.lemma_len();
        }
        self.dnd_items.len()
    }

    /// There are as many items as listed ids.
    pub proof fn lemma_len(&self)
        requires
            self.wf(),
        ensures
            self.map().len() == self.ids().len(),
            self.map().dom() == self.ids().to_set(),
    {
        assert(self.map().dom() =~= self.ids().to_set());
        self.ids().unique_seq_to_set();
    }

    /// Adds `data` under the next id, lists it last, selects it and gives
    /// its id.
    pub fn add(&mut self, data: T) -> (id: u64)
        requires
            old(self).wf(),
            old(self).id_count < u64::MAX,
        ensures
            final(self).wf(),
            id == old(self).id_count + 1,
            final(self).id_count == id,
            final(self).selected_id == id,
            final(self).map() == old(self).map().insert(id, data),
            final(self).ids() == old(self).ids().push(id),
            final(self).values() == old(self).values().push(data),
    {
        self.id_count += 1;
        let id = self.id_count;
        self.data_map.insert(id, data);
        self.selected_id = id;
        self.dnd_items.push(DndItem::new(id));
        proof {
            let ids0 = old(self).ids();
            assert(self.ids() =~= ids0.push(id));
            assert(!ids0.contains(id)) by {
                if ids0.contains(id) {
                    let p = ids0.index_of(id);
                    assert(ids0[p] <= old(self).id_count);
                }
            }
            assert forall|id2: u64| #[trigger] self.map().contains_key(id2) implies self.ids().contains(id2) by {
                if id2 != id {
                    assert(old(self).map().contains_key(id2));
                    let p = ids0.index_of(id2);
                    assert(self.ids()[p] == id2);
                } else {
                    assert(self.ids()[ids0.len() as int] == id);
                }
            }
            assert forall|i: int| 0 <= i < ids0.len() implies #[trigger] self.values()[i] == old(self).values()[i] by {
                assert(ids0[i] != id);
            }
            assert(self.values() =~= old(self).values().push(data));
        }
        id
    }

    /// Removes the item `id`, unless fewer than two items are left.
    pub fn del(&mut self, id: u64)
        requires
            old(self).wf(),
        ensures
            final(self).wf(),
            final(self).id_count == old(self).id_count,
            final(self).selected_id == old(self).selected_id,
            (old(self).map().len() >= 2 && old(self).map().contains_key(id)) ==> {
                let i = old(self).ids().index_of(id);
                &&& final(self).map() == old(self).map().remove(id)
                &&& final(self).ids() == old(self).ids().remove(i)
                &&& final(self).values() == old(self).values().remove(i)
            },
            !(old(self).map().len() >= 2 && old(self).map().contains_key(id)) ==> {
                &&& final(self).map() == old(self).map()
                &&& final(self).ids() == old(self).ids()
            },
    {
        if self.data_map.len() < 2 {
            return;
        }
        let _ = self.data_map.remove(&id);
        let del_index = find_item(&self.dnd_items, id);
        match del_index {
            Some(i) => {
                let ghost ids0 = old(self).ids();
                let ghost map0 = old(self).map();
                let _ = self.dnd_items.remove(i);
                proof {
                    assert(ids0[i as int] == id);
                    assert(ids0.contains(id));
                    assert(ids0.index_of(id) == i) by {
                        let p = ids0.index_of(id);
                        if p != i {
                            assert(ids0[p] == ids0[i as int]);
                        }
                    }
                    assert(self.ids() =~= ids0.remove(i as int));
                    assert forall|a: int, b: int| 0 <= a < b < self.ids().len() implies self.ids()[a] != self.ids()[b] by {
                        let a0 = if a < i { a } else { a + 1 };
                        let b0 = if b < i { b } else { b + 1 };
                        assert(self.ids()[a] == ids0[a0] && self.ids()[b] == ids0[b0]);
                    }
                    assert forall|j: int| 0 <= j < self.ids().len() implies self.map().contains_key(#[trigger] self.ids()[j]) by {
                        let j0 = if j < i { j } else { j + 1 };
                        assert(self.ids()[j] == ids0[j0]);
                        assert(ids0[j0] != id);
                    }
                    assert forall|j: int| 0 <= j < self.ids().len() implies 1 <= #[trigger] self.ids()[j] <= self.id_count by {
                        let j0 = if j < i { j } else { j + 1 };
                        assert(self.ids()[j] == ids0[j0]);
                    }
                    assert forall|id2: u64| #[trigger] self.map().contains_key(id2) implies self.ids().contains(id2) by {
                        let p = ids0.index_of(id2);
                        if p < i {
                            assert(self.ids()[p] == id2);
                        } else {
                            assert(p != i);
                            assert(self.ids()[p - 1] == id2);
                        }
                    }
                    assert forall|j: int| 0 <= j < self.ids().len() implies #[trigger] self.values()[j] == old(self).values().remove(i as int)[j] by {
                        let j0 = if j < i { j } else { j + 1 };
                        assert(self.ids()[j] == ids0[j0]);
                        assert(ids0[j0] != id);
                    }
                    assert(self.values() =~= old(self).values().remove(i as int));
                }
            },
            None => {
                proof {
                    assert(!old(self).map().contains_key(id));
                    assert(self.map() =~= old(self).map());
                }
            },
        }
    }

    /// Removes every item and selects nothing; the ids handed out stay used.
    pub fn clear(&mut self)
        ensures
            final(self).wf(),
            final(self).id_count == old(self).id_count,
            final(self).selected_id == 0,
            final(self).map() == Map::<u64, T>::empty(),
            final(self).ids() == Seq::<u64>::empty(),
            final(self).values() == Seq::<T>::empty(),
    {
        self.data_map.clear();
        self.dnd_items.clear();
        self.selected_id = 0;
        assert(self.ids() =~= Seq::<u64>::empty());
        assert(self.values() =~= Seq::<T>::empty());
    }

    /// The item `id`, if there is one.
    pub fn get(&self, id: u64) -> (r: Option<&T>)
        ensures
            match r {
                Some(d) => self.map().contains_key(id) && *d == self.map()[id],
                None => !self.map().contains_key(id),
            },
    {
        self.data_map.get(&id)
    }

    /// The item `id` to change in place, if there is one.
    pub fn get_mut(&mut self, id: u64) -> (r: Option<&mut T>)
        requires
            old(self).wf(),
        ensures
            final(self).id_count == old(self).id_count,
            final(self).selected_id == old(self).selected_id,
            final(self).dnd_items == old(self).dnd_items,
            match r {
                Some(d) => {
                    &&& old(self).map().contains_key(id)
                    &&& *d == old(self).map()[id]
                    &&& final(self).map() == old(self).map().insert(id, *final(d))
                },
                None => !old(self).map().contains_key(id) && final(self).map() == old(self).map(),
            },
    {
        map_get_mut(&mut self.data_map, id)
    }

    /// The selected item, if there is one.
    pub fn selected(&self) -> (r: Option<&T>)
        ensures
            match r {
                Some(d) => self.map().contains_key(self.selected_id) && *d == self.map()[self.selected_id],
                None => !self.map().contains_key(self.selected_id),
            },
    {
        self.data_map.get(&self.selected_id)
    }

    /// The items in list order.
    pub fn value_refs(&self) -> (v: Vec<&T>)
        requires
            self.wf(),
        ensures
            v@.len() == self.values().len(),
            forall|i: int| 0 <= i < v@.len() ==> *v@[i] == self.values()[i],
    {
        let mut v: Vec<&T> = Vec::new();
        let mut i: usize = 0;
        while i < self.dnd_items.len()
            invariant
                self.wf(),
                i <= self.dnd_items@.len(),
                v@.len() == i,
                forall|j: int| 0 <= j < i ==> *v@[j] == self.values()[j],
            decreases self.dnd_items@.len() - i,
        {
            let id = self.dnd_items[i].key_id;
            assert(self.ids()[i as int] == id);
            match self.data_map.get(&id) {
                Some(d) => {
                    v.push(d);
                },
                None => {
                    assert(false);
                },
            }
            i += 1;
        }
        v
    }
}

/// A change made in place to an item keeps the list well formed.
pub proof fn lemma_wf_after_update<T>(l0: IdList<T>, l1: IdList<T>, id: u64, d: T)
    requires
        l0.wf(),
        l0.map().contains_key(id),
        l1.dnd_items == l0.dnd_items,
        l1.id_count == l0.id_count,
        l1.map() == l0.map().insert(id, d),
    ensures
        l1.wf(),
        l1.values() == l0.values().update(l0.ids().index_of(id), d),
{
    assert(l1.map().dom() =~= l0.map().dom());
    assert forall|id2: u64| #[trigger] l1.map().contains_key(id2) implies l1.ids().contains(id2) by {
        assert(l0.map().contains_key(id2));
    }
    let p = l0.ids().index_of(id);
    assert forall|j: int| 0 <= j < l1.values().len() implies #[trigger] l1.values()[j] == l0.values().update(p, d)[j] by {
        if j == p {
        } else {
            assert(l0.ids()[j] != id) by {
                if l0.ids()[j] == id {
                    assert(l0.ids()[p] == id);
                }
            }
        }
    }
    assert(l1.values() =~= l0.values().update(p, d));
}

} // verus!
