//! The catalog store: the one owner of the menu items.
//!
//! Items are kept in the order in which they were created. Identifiers come
//! from a counter that only grows, so an identifier is never handed out twice,
//! not even after the item that carried it is deleted.

use crate::item::{fields_are_valid, item_views, valid_fields, ItemView, MenuItem};
use vstd::prelude::*;

verus! {

/// Why an operation on the catalog was refused.
#[derive(Clone, Copy, Debug, PartialEq, Eq, Structural)]
pub enum CatalogError {
    /// The supplied name is blank or the supplied price is negative.
    Validation,
    /// No live item carries the given identifier.
    NotFound,
}

impl CatalogError {
    /// The machine-readable reason under which the error is reported.
    pub open spec fn reason_text(self) -> Seq<char> {
        match self {
            CatalogError::Validation => "validation_error"@,
            CatalogError::NotFound => "not_found"@,
        }
    }

    /// The machine-readable reason under which the error is reported.
    pub fn reason(self) -> (text: &'static str)
        ensures
            text@ == self.reason_text(),
    {
        match self {
            CatalogError::Validation => "validation_error",
            CatalogError::NotFound => "not_found",
        }
    }
}

/// The mathematical value of a catalog: the live items in insertion order and
/// the next identifier to hand out.
pub struct CatalogView {
    pub items: Seq<ItemView>,
    pub next_id: int,
}

impl CatalogView {
    /// The catalog before anything was created.
    pub open spec fn empty() -> CatalogView {
        CatalogView { items: Seq::empty(), next_id: 1 }
    }

    /// Every live item is valid and was issued its identifier by this
    /// catalog, and identifiers grow along the list (so none occurs twice).
    pub open spec fn wf(self) -> bool {
        &&& self.next_id >= 1
        &&& forall|i: int|
            0 <= i < self.items.len() ==> (#[trigger] self.items[i]).valid() && self.items[i].id
                < self.next_id
        &&& forall|i: int, j: int|
            0 <= i < j < self.items.len() ==> (#[trigger] self.items[i]).id < (
            #[trigger] self.items[j]).id
    }

    /// Whether `id` has ever been handed out.
    pub open spec fn issued(self, id: int) -> bool {
        1 <= id < self.next_id
    }

    /// Whether a live item carries `id`.
    pub open spec fn has(self, id: int) -> bool {
        exists|i: int| 0 <= i < self.items.len() && (#[trigger] self.items[i]).id == id
    }

    /// The position of the live item that carries `id`.
    pub open spec fn index_of(self, id: int) -> int {
        choose|i: int| 0 <= i < self.items.len() && (#[trigger] self.items[i]).id == id
    }

    /// The live item that carries `id`, if there is one.
    pub open spec fn lookup(self, id: int) -> Option<ItemView> {
        if self.has(id) {
            Some(self.items[self.index_of(id)])
        } else {
            None
        }
    }

    /// The catalog after an attempt to create an item: acceptable fields
    /// append an item under the next identifier, others change nothing.
    pub open spec fn created(self, name: Seq<char>, price: int) -> CatalogView {
        if valid_fields(name, price) {
            CatalogView {
                items: self.items.push(ItemView { id: self.next_id, name, price }),
                next_id: self.next_id + 1,
            }
        } else {
            self
        }
    }

    /// The catalog after an attempt to update the item `id`: acceptable
    /// fields replace those of a live item where it stands, anything else
    /// changes nothing.
    pub open spec fn updated(self, id: int, name: Seq<char>, price: int) -> CatalogView {
        if valid_fields(name, price) && self.has(id) {
            CatalogView {
                items: self.items.update(self.index_of(id), ItemView { id, name, price }),
                next_id: self.next_id,
            }
        } else {
            self
        }
    }

    /// The catalog after an attempt to delete the item `id`: a live item
    /// leaves the list, the others keep their order; the counter stays.
    pub open spec fn removed(self, id: int) -> CatalogView {
        if self.has(id) {
            CatalogView { items: self.items.remove(self.index_of(id)), next_id: self.next_id }
        } else {
            self
        }
    }

    /// In a well-formed catalog the item at position `i` is the one found
    /// under its identifier.
    pub proof fn lemma_index_of(self, i: int)
        requires
            self.wf(),
            0 <= i < self.items.len(),
        ensures
            self.has(self.items[i].id),
            self.index_of(self.items[i].id) == i,
            self.lookup(self.items[i].id) == Some(self.items[i]),
    {
        let id = self.items[i].id;
        assert(self.has(id));
        let k = self.index_of(id);
        assert(0 <= k < self.items.len() && self.items[k].id == id);
        if k < i {
            assert(self.items[k].id < self.items[i].id);
        } else if i < k {
            assert(self.items[i].id < self.items[k].id);
        }
    }
}

/// The catalog store.
#[derive(Debug)]
pub struct Catalog {
    items: Vec<MenuItem>,
    next_id: u64,
}

impl View for Catalog {
    type V = CatalogView;

    closed spec fn view(&self) -> CatalogView {
        CatalogView { items: item_views(self.items@), next_id: self.next_id as int }
    }
}

impl Catalog {
    /// The store's invariant.
    pub open spec fn wf(&self) -> bool {
        self@.wf()
    }

    /// Whether the identifier counter can still hand out an identifier.
    pub open spec fn has_spare_id(&self) -> bool {
        self@.next_id < u64::MAX
    }

    /// An empty catalog whose first item will get the identifier 1.
    pub fn new() -> (c: Catalog)
        ensures
            c.wf(),
            c@ == CatalogView::empty(),
            c.has_spare_id(),
    {
        let c = Catalog { items: Vec::new(), next_id: 1 };
        assert(c@.items =~= Seq::empty());
        c
    }

    /// Whether `create` may be called.
    pub fn can_create(&self) -> (r: bool)
        ensures
            r == self.has_spare_id(),
    {
        self.next_id < u64::MAX
    }

    /// The number of live items.
    pub fn len(&self) -> (n: usize)
        ensures
            n == self@.items.len(),
    {
        self.items.len()
    }

    /// All live items, in the order in which they were created.
    pub fn list(&self) -> (all: Vec<MenuItem>)
        ensures
            item_views(all@) == self@.items,
    {
        let mut all: Vec<MenuItem> = Vec::new();
        let mut i: usize = 0;
        while i < self.items.len()
            invariant
                i <= self.items.len(),
                all@ == self.items@.subrange(0, i as int),
            decreases self.items.len() - i,
        {
            all.push(self.items[i].clone());
            assert(all@ =~= self.items@.subrange(0, i + 1));
            i += 1;
        }
        assert(all@ =~= self.items@);
        all
    }

    /// Where the live item `id` stands, if it is live.
    fn position(&self, id: u64) -> (r: Option<usize>)
        requires
            self.wf(),
        ensures
            match r {
                Some(i) => i < self.items.len() && self.items[i as int].id == id && self@.has(
                    id as int,
                ) && self@.index_of(id as int) == i,
                None => !self@.has(id as int),
            },
    {
        let mut i: usize = 0;
        while i < self.items.len()
            invariant
                self.wf(),
                i <= self.items.len(),
                forall|j: int| 0 <= j < i ==> self.items[j].id != id,
            decreases self.items.len() - i,
        {
            if self.items[i].id == id {
                proof {
                    assert(self@.items[i as int].id == id as int);
                    self@.lemma_index_of(i as int);
                }
                return Some(i);
            }
            i += 1;
        }
        proof {
            assert forall|j: int| 0 <= j < self@.items.len() implies (#[trigger] self@.items[j]).id
                != id as int by {
                assert(self@.items[j] == self.items[j]@);
            }
        }
        None
    }

    /// The live item `id`, or `NotFound`.
    pub fn get(&self, id: u64) -> (r: Result<MenuItem, CatalogError>)
        requires
            self.wf(),
        ensures
            match r {
                Ok(item) => self@.lookup(id as int) == Some(item@),
                Err(e) => e == CatalogError::NotFound && self@.lookup(id as int) is None,
            },
    {
        match self.position(id) {
            Some(i) => Ok(self.items[i].clone()),
            None => Err(CatalogError::NotFound),
        }
    }

    /// Appends a new item with the next identifier and returns it, or
    /// returns `Validation` and leaves the catalog as it was.
    pub fn create(&mut self, name: String, price: i64) -> (r: Result<MenuItem, CatalogError>)
        requires
            old(self).wf(),
            old(self).has_spare_id(),
        ensures
            final(self).wf(),
            final(self)@ == old(self)@.created(name@, price as int),
            r is Err ==> final(self)@ == old(self)@,
            match r {
                Ok(item) => valid_fields(name@, price as int) && item@ == (ItemView {
                    id: old(self)@.next_id,
                    name: name@,
                    price: price as int,
                }),
                Err(e) => e == CatalogError::Validation && !valid_fields(name@, price as int),
            },
    {
        if !fields_are_valid(name.as_str(), price) {
            return Err(CatalogError::Validation);
        }
        let id: u64 = self.next_id;
        let item = MenuItem { id, name, price };
        let copy = item.clone();
        self.items.push(item);
        self.next_id = id + 1;
        proof {
            assert(self@.items =~= old(self)@.items.push(copy@));
        }
        Ok(copy)
    }

    /// Replaces the name and price of the live item `id`, which keeps its
    /// identifier and its place, and returns the new item. Unacceptable
    /// fields give `Validation` whatever `id` is; acceptable fields for an
    /// identifier that is not live give `NotFound`. Either way the catalog
    /// stays as it was.
    pub fn update(&mut self, id: u64, name: String, price: i64) -> (r: Result<
        MenuItem,
        CatalogError,
    >)
        requires
            old(self).wf(),
        ensures
            final(self).wf(),
            final(self)@ == old(self)@.updated(id as int, name@, price as int),
            r is Err ==> final(self)@ == old(self)@,
            match r {
                Ok(item) => valid_fields(name@, price as int) && old(self)@.has(id as int) && item@
                    == (ItemView { id: id as int, name: name@, price: price as int }),
                Err(e) => if valid_fields(name@, price as int) {
                    e == CatalogError::NotFound && !old(self)@.has(id as int)
                } else {
                    e == CatalogError::Validation
                },
            },
    {
        if !fields_are_valid(name.as_str(), price) {
            return Err(CatalogError::Validation);
        }
        match self.position(id) {
            Some(i) => {
                let item = MenuItem { id, name, price };
                let copy = item.clone();
                self.items.set(i, item);
                proof {
                    assert(self@.items =~= old(self)@.items.update(i as int, copy@));
                }
                Ok(copy)
            },
            None => Err(CatalogError::NotFound),
        }
    }

    /// Removes the live item `id`, or returns `NotFound` and leaves the
    /// catalog as it was. The identifier is not handed out again.
    pub fn delete(&mut self, id: u64) -> (r: Result<(), CatalogError>)
        requires
            old(self).wf(),
        ensures
            final(self).wf(),
            final(self)@ == old(self)@.removed(id as int),
            r is Err ==> final(self)@ == old(self)@,
            match r {
                Ok(_) => old(self)@.has(id as int),
                Err(e) => e == CatalogError::NotFound && !old(self)@.has(id as int),
            },
    {
        match self.position(id) {
            Some(i) => {
                self.items.remove(i);
                proof {
                    assert(self@.items =~= old(self)@.items.remove(i as int));
                }
                Ok(())
            },
            None => Err(CatalogError::NotFound),
        }
    }
}

} // verus!
