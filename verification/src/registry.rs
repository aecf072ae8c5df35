//! The table of live objects: which ids exist, what interface each speaks,
//! and which handler its events go to.

use std::collections::HashMap;
use vstd::prelude::*;
use crate::error::Error;
use crate::schema::{Interface, InterfaceDescriptor};

verus! {

broadcast use vstd::std_specs::hash::group_hash_axioms;

/// The id of the display object, which exists from the start.
pub const DISPLAY_ID: u32 = 1;

/// The largest id a client may hand out; those above belong to the server.
pub const MAX_CLIENT_ID: u32 = 0xfeff_ffff;

/// What the table knows of one live object.
#[derive(Clone, Copy, Debug, PartialEq, Eq, Structural)]
pub struct ObjectRecord {
    pub descriptor: InterfaceDescriptor,
    /// The handler that the object's events are delivered to, once bound.
    pub handler: Option<u32>,
}

/// Where an event for an object id goes: to the object's handler, or nowhere
/// because the id is not live (`UnknownObject`) or has no handler yet
/// (`DispatchError`).
pub open spec fn spec_route(objects: Map<u32, ObjectRecord>, id: u32) -> Result<u32, Error> {
    if !objects.contains_key(id) {
        Err(Error::UnknownObject)
    } else {
        match objects[id].handler {
            Some(h) => Ok(h),
            None => Err(Error::DispatchError),
        }
    }
}

/// `id` is the least id from `from` on that is not live.
pub open spec fn is_first_free(objects: Map<u32, ObjectRecord>, from: u32, id: u32) -> bool {
    &&& from <= id <= MAX_CLIENT_ID
    &&& !objects.contains_key(id)
    &&& forall|j: u32| from <= j < id ==> objects.contains_key(j)
}

/// Every id from `from` on is live.
pub open spec fn none_free(objects: Map<u32, ObjectRecord>, from: u32) -> bool {
    forall|j: u32| from <= j <= MAX_CLIENT_ID ==> objects.contains_key(j)
}

/// The live objects of a connection, and the counter that hands out ids.
pub struct ObjectRegistry {
    objects: HashMap<u32, ObjectRecord>,
    next: u32,
}

impl View for ObjectRegistry {
    type V = Map<u32, ObjectRecord>;

    closed spec fn view(&self) -> Map<u32, ObjectRecord> {
        self.objects@
    }
}

impl ObjectRegistry {
    /// The id at which the search for a fresh id starts.
    pub closed spec fn next_id(&self) -> u32 {
        self.next
    }

    /// The counter never hands out the null id or the display's.
    pub closed spec fn wf(&self) -> bool {
        2 <= self.next <= MAX_CLIENT_ID + 1
    }

    /// A table that holds the display object alone.
    pub fn new() -> (r: ObjectRegistry)
        ensures
            r.wf(),
            r.next_id() == 2,
            r@ == Map::<u32, ObjectRecord>::empty().insert(
                DISPLAY_ID,
                ObjectRecord {
                    descriptor: InterfaceDescriptor { interface: Interface::Display, version: 1 },
                    handler: None,
                },
            ),
    {
        let mut objects: HashMap<u32, ObjectRecord> = HashMap::new();
        objects.insert(
            DISPLAY_ID,
            ObjectRecord {
                descriptor: InterfaceDescriptor { interface: Interface::Display, version: 1 },
                handler: None,
            },
        );
        ObjectRegistry { objects, next: 2 }
    }

    /// A table that holds the display object alone and hands out ids from
    /// `first` on; `None` where `first` is the null id, the display's, or
    /// beyond the ids a client may use by more than one.
    pub fn starting_at(first: u32) -> (r: Option<ObjectRegistry>)
        ensures
            match r {
                Some(table) => {
                    &&& 2 <= first <= MAX_CLIENT_ID + 1
                    &&& table.wf()
                    &&& table.next_id() == first
                    &&& table@ == Map::<u32, ObjectRecord>::empty().insert(
                        DISPLAY_ID,
                        ObjectRecord {
                            descriptor: InterfaceDescriptor {
                                interface: Interface::Display,
                                version: 1,
                            },
                            handler: None,
                        },
                    )
                },
                None => first < 2 || first > MAX_CLIENT_ID + 1,
            },
    {
        if first < 2 || first > MAX_CLIENT_ID + 1 {
            return None;
        }
        let mut table = ObjectRegistry::new();
        table.next = first;
        Some(table)
    }

    /// The id that the next allocation would hand out: the least id, from the
    /// counter on, that is not live; `None` exactly where no such id is left.
    pub fn peek_free(&self) -> (r: Option<u32>)
        requires
            self.wf(),
        ensures
            match r {
                Some(id) => is_first_free(self@, self.next_id(), id),
                None => none_free(self@, self.next_id()),
            },
    {
        let mut candidate: u32 = self.next;
        while candidate <= MAX_CLIENT_ID && self.objects.contains_key(&candidate)
            invariant
                self.next <= candidate <= MAX_CLIENT_ID + 1,
                forall|j: u32| self.next <= j < candidate ==> self.objects@.contains_key(j),
            decreases MAX_CLIENT_ID + 1 - candidate,
        {
            candidate += 1;
        }
        if candidate > MAX_CLIENT_ID {
            None
        } else {
            Some(candidate)
        }
    }

    /// Hands out the least id, from the counter on, that is not live, and
    /// records a new object under it. Fails with `ResourceExhausted` exactly
    /// where no such id is left.
    pub fn allocate(&mut self, descriptor: InterfaceDescriptor) -> (r: Result<u32, Error>)
        requires
            old(self).wf(),
        ensures
            final(self).wf(),
            match r {
                Ok(id) => {
                    &&& is_first_free(old(self)@, old(self).next_id(), id)
                    &&& final(self)@ == old(self)@.insert(
                        id,
                        ObjectRecord { descriptor, handler: None },
                    )
                    &&& final(self).next_id() == id + 1
                },
                Err(e) => {
                    &&& e == Error::ResourceExhausted
                    &&& none_free(old(self)@, old(self).next_id())
                    &&& final(self)@ == old(self)@
                    &&& final(self).next_id() == old(self).next_id()
                },
            },
    {
        match self.peek_free() {
            None => Err(Error::ResourceExhausted),
            Some(id) => {
                self.objects.insert(id, ObjectRecord { descriptor, handler: None });
                self.next = id + 1;
                Ok(id)
            },
        }
    }

    /// The record of a live object.
    pub fn lookup(&self, id: u32) -> (r: Option<ObjectRecord>)
        ensures
            r == (if self@.contains_key(id) {
                Some(self@[id])
            } else {
                None
            }),
    {
        match self.objects.get(&id) {
            Some(record) => Some(*record),
            None => None,
        }
    }

    /// Gives a live object its handler, once. Fails with `UnknownObject`
    /// where the id is not live and with `DuplicateBinding` where it already
    /// has a handler; the table is then unchanged.
    pub fn bind(&mut self, id: u32, handler: u32) -> (r: Result<(), Error>)
        ensures
            final(self).next_id() == old(self).next_id(),
            final(self).wf() == old(self).wf(),
            match r {
                Ok(_) => {
                    &&& old(self)@.contains_key(id)
                    &&& old(self)@[id].handler is None
                    &&& final(self)@ == old(self)@.insert(
                        id,
                        ObjectRecord {
                            descriptor: old(self)@[id].descriptor,
                            handler: Some(handler),
                        },
                    )
                },
                Err(e) => {
                    &&& final(self)@ == old(self)@
                    &&& e == (if old(self)@.contains_key(id) {
                        Error::DuplicateBinding
                    } else {
                        Error::UnknownObject
                    })
                    &&& old(self)@.contains_key(id) ==> old(self)@[id].handler is Some
                },
            },
    {
        match self.lookup(id) {
            None => Err(Error::UnknownObject),
            Some(record) => match record.handler {
                Some(_) => Err(Error::DuplicateBinding),
                None => {
                    self.objects.insert(
                        id,
                        ObjectRecord { descriptor: record.descriptor, handler: Some(handler) },
                    );
                    Ok(())
                },
            },
        }
    }

    /// Marks an object destroyed. Fails with `UnknownObject` exactly where
    /// the id is not live.
    pub fn release(&mut self, id: u32) -> (r: Result<ObjectRecord, Error>)
        ensures
            final(self).next_id() == old(self).next_id(),
            final(self).wf() == old(self).wf(),
            final(self)@ == old(self)@.remove(id),
            match r {
                Ok(record) => old(self)@.contains_key(id) && record == old(self)@[id],
                Err(e) => e == Error::UnknownObject && !old(self)@.contains_key(id),
            },
    {
        match self.objects.remove(&id) {
            Some(record) => Ok(record),
            None => Err(Error::UnknownObject),
        }
    }

    /// Forgets every object, as when the connection dies.
    pub fn invalidate_all(&mut self)
        ensures
            final(self).next_id() == old(self).next_id(),
            final(self).wf() == old(self).wf(),
            final(self)@ == Map::<u32, ObjectRecord>::empty(),
    {
        self.objects.clear();
    }

    /// The handler that an event for `id` goes to.
    pub fn route(&self, id: u32) -> (r: Result<u32, Error>)
        ensures
            r == spec_route(self@, id),
    {
        match self.lookup(id) {
            None => Err(Error::UnknownObject),
            Some(record) => match record.handler {
                Some(h) => Ok(h),
                None => Err(Error::DispatchError),
            },
        }
    }
}

/// Once an object is released, an event for its id is answered with
/// `UnknownObject`, whatever else the table holds.
pub proof fn lemma_release_then_route(objects: Map<u32, ObjectRecord>, id: u32)
    ensures
        spec_route(objects.remove(id), id) == Err::<u32, Error>(Error::UnknownObject),
{
}

/// Releasing one object does not change where the events of another go.
pub proof fn lemma_release_keeps_others(objects: Map<u32, ObjectRecord>, id: u32, other: u32)
    requires
        other != id,
    ensures
        spec_route(objects.remove(id), other) == spec_route(objects, other),
{
}

/// Only one id is the least free one.
pub proof fn lemma_first_free_unique(objects: Map<u32, ObjectRecord>, from: u32, a: u32, b: u32)
    requires
        is_first_free(objects, from, a),
        is_first_free(objects, from, b),
    ensures
        a == b,
{
}

/// A freshly allocated id is never the null id nor the display's, and was
/// not live before.
pub proof fn lemma_fresh_id(objects: Map<u32, ObjectRecord>, from: u32, id: u32)
    requires
        from >= 2,
        is_first_free(objects, from, id),
    ensures
        id != 0,
        id != DISPLAY_ID,
        !objects.contains_key(id),
{
}

} // verus!
