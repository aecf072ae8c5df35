//! The state of one connection: the live objects, the advertised globals,
//! the queue of received events and the bounded buffer of bytes to write.
//!
//! The connection never reads or writes a transport. Its owner hands it the
//! bytes that arrived and takes from it the bytes to send, so requests from
//! any number of callers leave as whole frames, one after another.

use vstd::prelude::*;
use vstd::slice::slice_subrange;
use crate::codec::{copy_range, decode, encode, kinds_match, lemma_decoded_kinds, peek_header};
use crate::error::Error;
use crate::event::{lemma_schema_events_are_read, spec_event};
use crate::globals::{
    absent, after_event, is_first, spec_advertised, spec_negotiate, GlobalEntry, GlobalTable,
    RegistryState,
};
use crate::registry::{
    is_first_free, none_free, spec_route, ObjectRecord, ObjectRegistry, DISPLAY_ID,
};
use crate::schema::{
    spec_event_kinds, spec_name, spec_request_kinds, Interface, InterfaceDescriptor, DISPLAY_ERROR,
    DISPLAY_GET_REGISTRY, DISPLAY_SYNC, REGISTRY_BIND,
};
use crate::wire::{
    kinds_of, spec_decode, spec_encode, spec_peek, view_args, Arg, ArgValue, Header, Message,
    HEADER_LEN,
};

verus! {

/// What one drain of the event queue delivered: the events in the order they
/// were received, and for each the handler it goes to or the reason it goes
/// nowhere.
pub struct Dispatched {
    pub events: Vec<Message>,
    pub routes: Vec<Result<u32, Error>>,
}

impl Dispatched {
    /// Number of events that the drain took from the queue.
    pub fn count(&self) -> (r: usize)
        ensures
            r == self.events@.len(),
    {
        self.events.len()
    }
}

/// The state of one connection.
pub struct Connection {
    objects: ObjectRegistry,
    globals: GlobalTable,
    registry_id: Option<u32>,
    pending: Vec<Message>,
    outgoing: Vec<u8>,
    capacity: usize,
    alive: bool,
}

/// The arguments of a request that creates an object: those given, then the
/// new object's id.
pub open spec fn with_new_id(args: Seq<ArgValue>, id: u32) -> Seq<ArgValue> {
    args.push(ArgValue::Uint(id))
}

/// The arguments of the registry's bind request, but for the new id.
pub open spec fn bind_args(name: u32, wanted: Interface, version: u32) -> Seq<ArgValue> {
    seq![ArgValue::Uint(name), ArgValue::Str(spec_name(wanted)), ArgValue::Uint(version)]
}

/// What the first frame of a byte stream is to a connection with the given
/// live objects: `Ok(None)` while it is incomplete; its header and
/// arguments, read with the shapes of the target's event, or with the whole
/// payload as one array where the target is not live; `ConnectionError` on a
/// dead connection; `ProtocolViolation` for a malformed frame, an event that
/// the target's interface does not have, and the display's error event.
pub open spec fn spec_incoming(alive: bool, objects: Map<u32, ObjectRecord>, bytes: Seq<u8>) -> Result<
    Option<(Header, Seq<ArgValue>)>,
    Error,
> {
    if !alive {
        Err(Error::ConnectionError)
    } else {
        match spec_peek(bytes) {
            Err(e) => Err(e),
            Ok(None) => Ok(None),
            Ok(Some(h)) => if !objects.contains_key(h.object_id) {
                Ok(
                    Some(
                        (
                            h,
                            seq![
                                ArgValue::Array(bytes.subrange(HEADER_LEN as int, h.size as int)),
                            ],
                        ),
                    ),
                )
            } else {
                let interface = objects[h.object_id].descriptor.interface;
                match spec_event_kinds(interface, h.opcode) {
                    None => Err(Error::ProtocolViolation),
                    Some(kinds) => if interface == Interface::Display && h.opcode
                        == DISPLAY_ERROR {
                        Err(Error::ProtocolViolation)
                    } else {
                        spec_decode(bytes, kinds)
                    },
                }
            },
        }
    }
}

/// What a byte stream holds for a connection: its whole frames in order, up
/// to the first that is incomplete or fatal; the number of bytes they take;
/// and the fatal error that ended the reading, if one did.
pub open spec fn spec_stream(alive: bool, objects: Map<u32, ObjectRecord>, bytes: Seq<u8>) -> (
    Seq<(Header, Seq<ArgValue>)>,
    nat,
    Option<Error>,
)
    decreases bytes.len(),
{
    match spec_incoming(alive, objects, bytes) {
        Err(e) => (Seq::empty(), 0, Some(e)),
        Ok(None) => (Seq::empty(), 0, None),
        Ok(Some((h, args))) => if 0 < h.size <= bytes.len() {
            let (frames, taken, stop) = spec_stream(alive, objects, bytes.skip(h.size as int));
            (seq![(h, args)] + frames, h.size as nat + taken, stop)
        } else {
            (Seq::empty(), 0, None)
        },
    }
}

/// The queue `after` is the queue `before` with one message behind it for
/// each of the frames, in their order.
pub open spec fn queued(
    before: Seq<Message>,
    after: Seq<Message>,
    frames: Seq<(Header, Seq<ArgValue>)>,
) -> bool {
    &&& after.len() == before.len() + frames.len()
    &&& after.take(before.len() as int) == before
    &&& forall|j: int|
        before.len() <= j < after.len() ==> {
            let m = #[trigger] after[j];
            let frame = frames[j - before.len()];
            &&& m.object_id == frame.0.object_id
            &&& m.opcode == frame.0.opcode
            &&& view_args(m.args@) == frame.1
        }
}

fn route_all(objects: &ObjectRegistry, events: &Vec<Message>) -> (routes: Vec<Result<u32, Error>>)
    ensures
        routes@.len() == events@.len(),
        forall|i: int|
            0 <= i < events@.len() ==> routes@[i] == spec_route(objects@, events@[i].object_id),
{
    let mut routes: Vec<Result<u32, Error>> = Vec::new();
    let mut i: usize = 0;
    while i < events.len()
        invariant
            i <= events@.len(),
            routes@.len() == i,
            forall|j: int| 0 <= j < i ==> routes@[j] == spec_route(objects@, events@[j].object_id),
        decreases events@.len() - i,
    {
        routes.push(objects.route(events[i].object_id));
        i += 1;
    }
    routes
}

impl Connection {
    /// The live objects.
    pub closed spec fn objects(&self) -> Map<u32, ObjectRecord> {
        self.objects@
    }

    /// The id at which the search for a fresh id starts.
    pub closed spec fn next_id(&self) -> u32 {
        self.objects.next_id()
    }

    /// The advertised globals, in arrival order.
    pub closed spec fn globals(&self) -> Seq<GlobalEntry> {
        self.globals@
    }

    /// Where the registry object stands.
    pub closed spec fn registry_state(&self) -> RegistryState {
        self.globals.state()
    }

    /// The id of the registry object, once asked for.
    pub closed spec fn registry(&self) -> Option<u32> {
        self.registry_id
    }

    /// The events received and not yet dispatched, oldest first.
    pub closed spec fn pending(&self) -> Seq<Message> {
        self.pending@
    }

    /// The bytes encoded and not yet taken for writing.
    pub closed spec fn outgoing(&self) -> Seq<u8> {
        self.outgoing@
    }

    /// The most bytes that the outgoing buffer may hold.
    pub closed spec fn capacity(&self) -> nat {
        self.capacity as nat
    }

    /// Whether the connection is still usable.
    pub closed spec fn alive(&self) -> bool {
        self.alive
    }

    /// The outgoing buffer is within its bound, ids are handed out from two
    /// on, and a dead connection has no live object.
    pub closed spec fn wf(&self) -> bool {
        &&& self.objects.wf()
        &&& self.globals.wf()
        &&& self.outgoing@.len() <= self.capacity
        &&& !self.alive ==> self.objects@ == Map::<u32, ObjectRecord>::empty()
    }

    /// What an error leaves behind: a fatal error leaves a dead connection
    /// without live objects, any other error the connection as it was. The
    /// queue and the outgoing buffer are as they were in both cases.
    pub open spec fn after_error(&self, after: &Connection, e: Error) -> bool {
        &&& after.next_id() == self.next_id()
        &&& after.globals() == self.globals()
        &&& after.registry_state() == self.registry_state()
        &&& after.registry() == self.registry()
        &&& after.pending() == self.pending()
        &&& after.outgoing() == self.outgoing()
        &&& after.capacity() == self.capacity()
        &&& if e.spec_is_fatal() {
            !after.alive() && after.objects() == Map::<u32, ObjectRecord>::empty()
        } else {
            after.alive() == self.alive() && after.objects() == self.objects()
        }
    }

    /// Everything but the outgoing buffer is as in `other`.
    pub open spec fn same_tables(&self, other: &Connection) -> bool {
        &&& self.objects() == other.objects()
        &&& self.next_id() == other.next_id()
        &&& self.globals() == other.globals()
        &&& self.registry_state() == other.registry_state()
        &&& self.registry() == other.registry()
        &&& self.pending() == other.pending()
        &&& self.capacity() == other.capacity()
        &&& self.alive() == other.alive()
    }

    /// Everything but the objects, the id counter and the outgoing buffer is
    /// as in `other`.
    pub open spec fn same_session(&self, other: &Connection) -> bool {
        &&& self.globals() == other.globals()
        &&& self.pending() == other.pending()
        &&& self.capacity() == other.capacity()
        &&& self.alive() == other.alive()
    }

    /// The frame that a request becomes, or why it cannot be sent: the
    /// connection is dead (`ConnectionError`), the target is not live
    /// (`UnknownObject`), its interface has no such request or the arguments
    /// are not of that request's shapes or too long for a frame
    /// (`ProtocolViolation`), or the outgoing buffer has no room for the
    /// frame (`Backpressure`).
    pub open spec fn spec_send(&self, object_id: u32, opcode: u16, args: Seq<ArgValue>) -> Result<
        Seq<u8>,
        Error,
    > {
        if !self.alive() {
            Err(Error::ConnectionError)
        } else if !self.objects().contains_key(object_id) {
            Err(Error::UnknownObject)
        } else {
            match spec_request_kinds(self.objects()[object_id].descriptor.interface, opcode) {
                None => Err(Error::ProtocolViolation),
                Some(kinds) => if kinds != kinds_of(args) {
                    Err(Error::ProtocolViolation)
                } else {
                    match spec_encode(object_id, opcode, args) {
                        None => Err(Error::ProtocolViolation),
                        Some(frame) => if self.outgoing().len() + frame.len() > self.capacity() {
                            Err(Error::Backpressure)
                        } else {
                            Ok(frame)
                        },
                    }
                },
            }
        }
    }

    /// What the first frame of a byte stream is to this connection; see
    /// `spec_incoming`.
    pub open spec fn spec_receive(&self, bytes: Seq<u8>) -> Result<
        Option<(Header, Seq<ArgValue>)>,
        Error,
    > {
        spec_incoming(self.alive(), self.objects(), bytes)
    }

    /// What a byte stream holds for this connection; see `spec_stream`.
    pub open spec fn spec_feed(&self, bytes: Seq<u8>) -> (Seq<(Header, Seq<ArgValue>)>, nat, Option<
        Error,
    >) {
        spec_stream(self.alive(), self.objects(), bytes)
    }

    /// What creating an object did: `Ok(id)` with the least free id, the
    /// request for it appended to the outgoing buffer and the new object
    /// recorded with its handler; or an error, with what `after_error` says
    /// it leaves behind. The error is `ResourceExhausted` where no id is
    /// free, else the reason the request cannot be sent.
    pub open spec fn created(
        &self,
        after: &Connection,
        r: Result<u32, Error>,
        target: u32,
        opcode: u16,
        args: Seq<ArgValue>,
        descriptor: InterfaceDescriptor,
        handler: u32,
    ) -> bool {
        match r {
            Ok(id) => {
                &&& is_first_free(self.objects(), self.next_id(), id)
                &&& self.spec_send(target, opcode, with_new_id(args, id)) is Ok
                &&& after.outgoing() == self.outgoing() + self.spec_send(
                    target,
                    opcode,
                    with_new_id(args, id),
                ).unwrap()
                &&& after.objects() == self.objects().insert(
                    id,
                    ObjectRecord { descriptor, handler: Some(handler) },
                )
                &&& after.next_id() == id + 1
                &&& after.same_session(self)
            },
            Err(e) => {
                &&& self.after_error(after, e)
                &&& if none_free(self.objects(), self.next_id()) {
                    e == Error::ResourceExhausted
                } else {
                    exists|id: u32| #[trigger]
                        is_first_free(self.objects(), self.next_id(), id) && self.spec_send(
                            target,
                            opcode,
                            with_new_id(args, id),
                        ) == Err::<Seq<u8>, Error>(e)
                }
            },
        }
    }

    /// Whether a global may be bound: `Ok` with the registry's id, or
    /// `UnknownObject` where the registry was never asked for or no global of
    /// that name is advertised, `ProtocolViolation` where the global offers
    /// another interface, `VersionMismatch` where the requested version is
    /// above the advertised one.
    pub open spec fn spec_bind_check(&self, name: u32, wanted: Interface, requested: u32) -> Result<
        u32,
        Error,
    > {
        match self.registry() {
            None => Err(Error::UnknownObject),
            Some(registry) => match spec_advertised(self.globals(), name) {
                None => Err(Error::UnknownObject),
                Some(entry) => if entry.interface@ != spec_name(wanted) {
                    Err(Error::ProtocolViolation)
                } else if requested > entry.version {
                    Err(Error::VersionMismatch)
                } else {
                    Ok(registry)
                },
            },
        }
    }

    /// A fresh connection: the display object alone is live, nothing is
    /// advertised, queued or waiting to be written.
    pub fn new(capacity: usize) -> (r: Connection)
        ensures
            r.wf(),
            r.alive(),
            r.capacity() == capacity,
            r.next_id() == 2,
            r.objects() == Map::<u32, ObjectRecord>::empty().insert(
                DISPLAY_ID,
                ObjectRecord {
                    descriptor: InterfaceDescriptor { interface: Interface::Display, version: 1 },
                    handler: None,
                },
            ),
            r.globals() == Seq::<GlobalEntry>::empty(),
            r.registry_state() == RegistryState::Unbound,
            r.registry() is None,
            r.pending() == Seq::<Message>::empty(),
            r.outgoing() == Seq::<u8>::empty(),
    {
        Connection {
            objects: ObjectRegistry::new(),
            globals: GlobalTable::new(),
            registry_id: None,
            pending: Vec::new(),
            outgoing: Vec::new(),
            capacity,
            alive: true,
        }
    }

    /// The id of the display object.
    pub fn display_object(&self) -> (r: u32)
        ensures
            r == 1,
    {
        DISPLAY_ID
    }

    /// Whether the connection is still usable.
    pub fn is_alive(&self) -> (r: bool)
        ensures
            r == self.alive(),
    {
        self.alive
    }

    /// The live objects.
    pub fn object_table(&self) -> (r: &ObjectRegistry)
        ensures
            r@ == self.objects(),
            r.next_id() == self.next_id(),
    {
        &self.objects
    }

    /// The advertised globals.
    pub fn global_table(&self) -> (r: &GlobalTable)
        ensures
            r@ == self.globals(),
            r.state() == self.registry_state(),
    {
        &self.globals
    }

    /// The id of the registry object, once asked for.
    pub fn registry_object(&self) -> (r: Option<u32>)
        ensures
            r == self.registry(),
    {
        self.registry_id
    }

    /// Number of events received and not yet dispatched.
    pub fn pending_len(&self) -> (r: usize)
        ensures
            r == self.pending().len(),
    {
        self.pending.len()
    }

    /// The bytes encoded and not yet taken for writing.
    pub fn outgoing_bytes(&self) -> (r: &Vec<u8>)
        ensures
            r@ == self.outgoing(),
    {
        &self.outgoing
    }

    /// Hands over the bytes to write and empties the outgoing buffer.
    pub fn take_outgoing(&mut self) -> (r: Vec<u8>)
        requires
            old(self).wf(),
        ensures
            final(self).wf(),
            r@ == old(self).outgoing(),
            final(self).outgoing() == Seq::<u8>::empty(),
            final(self).same_tables(old(self)),
    {
        let mut out: Vec<u8> = Vec::new();
        core::mem::swap(&mut self.outgoing, &mut out);
        out
    }

    /// Tears the connection down: it is dead and no object is live.
    pub fn fail(&mut self)
        requires
            old(self).wf(),
        ensures
            final(self).wf(),
            !final(self).alive(),
            final(self).objects() == Map::<u32, ObjectRecord>::empty(),
            final(self).next_id() == old(self).next_id(),
            final(self).globals() == old(self).globals(),
            final(self).registry_state() == old(self).registry_state(),
            final(self).registry() == old(self).registry(),
            final(self).pending() == old(self).pending(),
            final(self).outgoing() == old(self).outgoing(),
            final(self).capacity() == old(self).capacity(),
    {
        self.alive = false;
        self.objects.invalidate_all();
    }

    /// Tears the connection down where the error is fatal.
    fn fail_if_fatal(&mut self, e: Error)
        requires
            old(self).wf(),
        ensures
            final(self).wf(),
            old(self).after_error(final(self), e),
    {
        if e.is_fatal() {
            self.fail();
        }
    }

    /// The frame for a request, as `spec_send` defines it; the connection is
    /// left as it is.
    fn frame_for(&self, object_id: u32, opcode: u16, args: &Vec<Arg>) -> (r: Result<Vec<u8>, Error>)
        requires
            self.wf(),
        ensures
            match r {
                Ok(frame) => self.spec_send(object_id, opcode, view_args(args@)) == Ok::<
                    Seq<u8>,
                    Error,
                >(frame@),
                Err(e) => self.spec_send(object_id, opcode, view_args(args@)) == Err::<
                    Seq<u8>,
                    Error,
                >(e),
            },
    {
        if !self.alive {
            return Err(Error::ConnectionError);
        }
        let record = match self.objects.lookup(object_id) {
            None => {
                return Err(Error::UnknownObject);
            },
            Some(record) => record,
        };
        let kinds = match record.descriptor.interface.request_kinds(opcode) {
            None => {
                return Err(Error::ProtocolViolation);
            },
            Some(kinds) => kinds,
        };
        if !kinds_match(args, &kinds) {
            return Err(Error::ProtocolViolation);
        }
        let frame = match encode(object_id, opcode, args) {
            Err(_) => {
                return Err(Error::ProtocolViolation);
            },
            Ok(frame) => frame,
        };
        if frame.len() > self.capacity - self.outgoing.len() {
            return Err(Error::Backpressure);
        }
        Ok(frame)
    }

    /// Encodes a request and appends its frame, whole, to the outgoing
    /// buffer. On an error nothing is appended; a request that the schema
    /// refuses is a protocol violation and tears the connection down.
    pub fn send(&mut self, object_id: u32, opcode: u16, args: &Vec<Arg>) -> (r: Result<(), Error>)
        requires
            old(self).wf(),
        ensures
            final(self).wf(),
            match r {
                Ok(_) => {
                    &&& final(self).same_tables(old(self))
                    &&& old(self).spec_send(object_id, opcode, view_args(args@)) is Ok
                    &&& final(self).outgoing() == old(self).outgoing() + old(self).spec_send(
                        object_id,
                        opcode,
                        view_args(args@),
                    ).unwrap()
                },
                Err(e) => {
                    &&& old(self).spec_send(object_id, opcode, view_args(args@)) == Err::<
                        Seq<u8>,
                        Error,
                    >(e)
                    &&& old(self).after_error(final(self), e)
                },
            },
    {
        match self.frame_for(object_id, opcode, args) {
            Err(e) => {
                self.fail_if_fatal(e);
                Err(e)
            },
            Ok(frame) => {
                let mut frame = frame;
                self.outgoing.append(&mut frame);
                Ok(())
            },
        }
    }

    /// Creates an object: takes the least free id, sends the request
    /// `opcode` to `target` with the given arguments followed by the new id,
    /// and records the new object with its handler before any event can
    /// arrive for it.
    pub fn create(
        &mut self,
        target: u32,
        opcode: u16,
        args: Vec<Arg>,
        descriptor: InterfaceDescriptor,
        handler: u32,
    ) -> (r: Result<u32, Error>)
        requires
            old(self).wf(),
        ensures
            final(self).wf(),
            r is Ok ==> final(self).registry_state() == old(self).registry_state(),
            r is Ok ==> final(self).registry() == old(self).registry(),
            old(self).created(final(self), r, target, opcode, view_args(args@), descriptor, handler),
    {
        let id = match self.objects.peek_free() {
            None => {
                self.fail_if_fatal(Error::ResourceExhausted);
                return Err(Error::ResourceExhausted);
            },
            Some(id) => id,
        };
        let mut args = args;
        let ghost given = view_args(args@);
        args.push(Arg::Uint(id));
        assert(view_args(args@) =~= with_new_id(given, id));
        let mut frame = match self.frame_for(target, opcode, &args) {
            Err(e) => {
                self.fail_if_fatal(e);
                return Err(e);
            },
            Ok(frame) => frame,
        };
        self.outgoing.append(&mut frame);
        let allocated = self.objects.allocate(descriptor);
        let bound = self.objects.bind(id, handler);
        assert(allocated == Ok::<u32, Error>(id));
        assert(bound is Ok);
        assert(self.objects@ =~= old(self).objects@.insert(
            id,
            ObjectRecord { descriptor, handler: Some(handler) },
        ));
        Ok(id)
    }

    /// Asks the display for the registry object and starts listening for
    /// advertisements. Fails with `DuplicateBinding` where the registry was
    /// asked for before; else as `create` does.
    pub fn get_registry(&mut self, handler: u32) -> (r: Result<u32, Error>)
        requires
            old(self).wf(),
        ensures
            final(self).wf(),
            if old(self).registry_state() != RegistryState::Unbound {
                &&& r == Err::<u32, Error>(Error::DuplicateBinding)
                &&& old(self).after_error(final(self), Error::DuplicateBinding)
            } else {
                &&& old(self).created(
                    final(self),
                    r,
                    DISPLAY_ID,
                    DISPLAY_GET_REGISTRY,
                    Seq::<ArgValue>::empty(),
                    InterfaceDescriptor { interface: Interface::Registry, version: 1 },
                    handler,
                )
                &&& r is Ok ==> final(self).registry_state() == RegistryState::Listening
                &&& r is Ok ==> final(self).registry() == Some(r.unwrap())
            },
    {
        match self.globals.current_state() {
            RegistryState::Unbound => {},
            _ => {
                return Err(Error::DuplicateBinding);
            },
        }
        let descriptor = InterfaceDescriptor { interface: Interface::Registry, version: 1 };
        let args: Vec<Arg> = Vec::new();
        assert(view_args(args@) =~= Seq::<ArgValue>::empty());
        match self.create(DISPLAY_ID, DISPLAY_GET_REGISTRY, args, descriptor, handler) {
            Err(e) => Err(e),
            Ok(id) => {
                let listening = self.globals.listen();
                self.registry_id = Some(id);
                Ok(id)
            },
        }
    }

    /// Starts a round trip: creates a callback object and sends the
    /// display's synchronization request for it. The round trip is complete
    /// once `sync_arrived` holds of the returned id.
    pub fn begin_roundtrip(&mut self, handler: u32) -> (r: Result<u32, Error>)
        requires
            old(self).wf(),
        ensures
            final(self).wf(),
            r is Ok ==> final(self).registry_state() == old(self).registry_state(),
            r is Ok ==> final(self).registry() == old(self).registry(),
            old(self).created(
                final(self),
                r,
                DISPLAY_ID,
                DISPLAY_SYNC,
                Seq::<ArgValue>::empty(),
                InterfaceDescriptor { interface: Interface::Callback, version: 1 },
                handler,
            ),
    {
        let descriptor = InterfaceDescriptor { interface: Interface::Callback, version: 1 };
        let args: Vec<Arg> = Vec::new();
        assert(view_args(args@) =~= Seq::<ArgValue>::empty());
        self.create(DISPLAY_ID, DISPLAY_SYNC, args, descriptor, handler)
    }

    /// Whether an event for the given object is queued.
    pub open spec fn spec_sync_arrived(&self, callback: u32) -> bool {
        exists|i: int|
            0 <= i < self.pending().len() && (#[trigger] self.pending()[i]).object_id == callback
    }

    /// Whether an event for the given object is queued: for a callback of
    /// `begin_roundtrip`, whether the server's reply has arrived.
    pub fn sync_arrived(&self, callback: u32) -> (r: bool)
        ensures
            r == self.spec_sync_arrived(callback),
    {
        let mut i: usize = 0;
        while i < self.pending.len()
            invariant
                i <= self.pending@.len(),
                forall|j: int| 0 <= j < i ==> (#[trigger] self.pending@[j]).object_id != callback,
            decreases self.pending@.len() - i,
        {
            if self.pending[i].object_id == callback {
                assert(self.pending()[i as int].object_id == callback);
                return true;
            }
            i += 1;
        }
        false
    }

    /// Ends a round trip once the server's reply is queued: drains the queue
    /// as `dispatch_pending` does, the reply included, and then releases the
    /// callback. While the reply has not arrived it does nothing and returns
    /// `None`.
    pub fn finish_roundtrip(&mut self, callback: u32) -> (r: Option<Dispatched>)
        requires
            old(self).wf(),
        ensures
            final(self).wf(),
            final(self).next_id() == old(self).next_id(),
            final(self).globals() == old(self).globals(),
            final(self).registry_state() == old(self).registry_state(),
            final(self).registry() == old(self).registry(),
            final(self).outgoing() == old(self).outgoing(),
            final(self).capacity() == old(self).capacity(),
            final(self).alive() == old(self).alive(),
            match r {
                None => {
                    &&& !old(self).spec_sync_arrived(callback)
                    &&& final(self).pending() == old(self).pending()
                    &&& final(self).objects() == old(self).objects()
                },
                Some(d) => {
                    &&& old(self).spec_sync_arrived(callback)
                    &&& d.events@ == old(self).pending()
                    &&& d.routes@.len() == d.events@.len()
                    &&& forall|i: int|
                        0 <= i < d.events@.len() ==> d.routes@[i] == spec_route(
                            old(self).objects(),
                            d.events@[i].object_id,
                        )
                    &&& final(self).pending() == Seq::<Message>::empty()
                    &&& final(self).objects() == old(self).objects().remove(callback)
                },
            },
    {
        if !self.sync_arrived(callback) {
            return None;
        }
        let dispatched = self.dispatch_pending();
        let released = self.objects.release(callback);
        assert(!self.alive ==> self.objects@ =~= Map::<u32, ObjectRecord>::empty());
        Some(dispatched)
    }

    /// Binds an advertised global at the requested version: checks the
    /// request against the advertisement, then creates the object through
    /// the registry's bind request.
    pub fn bind_global(&mut self, name: u32, wanted: Interface, requested: u32, handler: u32) -> (r:
        Result<u32, Error>)
        requires
            old(self).wf(),
        ensures
            final(self).wf(),
            match old(self).spec_bind_check(name, wanted, requested) {
                Err(e) => {
                    &&& r == Err::<u32, Error>(e)
                    &&& old(self).after_error(final(self), e)
                },
                Ok(registry) => {
                    &&& old(self).created(
                        final(self),
                        r,
                        registry,
                        REGISTRY_BIND,
                        bind_args(name, wanted, requested),
                        InterfaceDescriptor { interface: wanted, version: requested },
                        handler,
                    )
                    &&& r is Ok ==> final(self).registry_state() == RegistryState::Bound
                    &&& r is Ok ==> final(self).registry() == old(self).registry()
                },
            },
    {
        let registry = match self.registry_id {
            None => {
                return Err(Error::UnknownObject);
            },
            Some(registry) => registry,
        };
        let checked: Result<(), Error> = match self.globals.advertised(name) {
            None => Err(Error::UnknownObject),
            Some(entry) => if !wanted.is_named(entry.interface.as_slice()) {
                Err(Error::ProtocolViolation)
            } else if requested > entry.version {
                Err(Error::VersionMismatch)
            } else {
                Ok(())
            },
        };
        match checked {
            Err(e) => {
                self.fail_if_fatal(e);
                return Err(e);
            },
            Ok(_) => {},
        }
        let mut args: Vec<Arg> = Vec::new();
        args.push(Arg::Uint(name));
        args.push(Arg::Str(wanted.name()));
        args.push(Arg::Uint(requested));
        assert(view_args(args@) =~= bind_args(name, wanted, requested));
        let descriptor = InterfaceDescriptor { interface: wanted, version: requested };
        match self.create(registry, REGISTRY_BIND, args, descriptor, handler) {
            Err(e) => Err(e),
            Ok(id) => {
                assert(self.globals@.len() > 0);
                self.globals.note_bound();
                Ok(id)
            },
        }
    }
    /// Takes the first frame of the bytes that arrived and queues its event
    /// behind those already queued. Returns the number of bytes the frame
    /// took, or zero while the frame is incomplete. A fatal error tears the
    /// connection down; the events queued before stay queued.
    pub fn receive(&mut self, bytes: &[u8]) -> (r: Result<usize, Error>)
        requires
            old(self).wf(),
        ensures
            final(self).wf(),
            final(self).next_id() == old(self).next_id(),
            final(self).globals() == old(self).globals(),
            final(self).registry_state() == old(self).registry_state(),
            final(self).registry() == old(self).registry(),
            final(self).outgoing() == old(self).outgoing(),
            final(self).capacity() == old(self).capacity(),
            match r {
                Ok(n) => {
                    &&& final(self).alive()
                    &&& final(self).objects() == old(self).objects()
                    &&& match old(self).spec_receive(bytes@) {
                        Ok(None) => n == 0 && final(self).pending() == old(self).pending(),
                        Ok(Some((h, args))) => {
                            &&& n == h.size
                            &&& 0 < n <= bytes@.len()
                            &&& final(self).pending().len() == old(self).pending().len() + 1
                            &&& final(self).pending().drop_last() == old(self).pending()
                            &&& final(self).pending().last().object_id == h.object_id
                            &&& final(self).pending().last().opcode == h.opcode
                            &&& view_args(final(self).pending().last().args@) == args
                        },
                        Err(_) => false,
                    }
                },
                Err(e) => {
                    &&& old(self).spec_receive(bytes@) == Err::<
                        Option<(Header, Seq<ArgValue>)>,
                        Error,
                    >(e)
                    &&& e == Error::ConnectionError || e == Error::ProtocolViolation
                    &&& old(self).after_error(final(self), e)
                },
            },
    {
        if !self.alive {
            return Err(Error::ConnectionError);
        }
        let h = match peek_header(bytes) {
            Err(e) => {
                self.fail();
                return Err(e);
            },
            Ok(None) => {
                return Ok(0);
            },
            Ok(Some(h)) => h,
        };
        let record = match self.objects.lookup(h.object_id) {
            None => {
                let payload = copy_range(bytes, HEADER_LEN, h.size as usize);
                let mut args: Vec<Arg> = Vec::new();
                args.push(Arg::Array(payload));
                assert(view_args(args@) =~= seq![
                    ArgValue::Array(bytes@.subrange(HEADER_LEN as int, h.size as int)),
                ]);
                self.pending.push(Message { object_id: h.object_id, opcode: h.opcode, args });
                assert(self.pending@.drop_last() =~= old(self).pending@);
                return Ok(h.size as usize);
            },
            Some(record) => record,
        };
        let interface = record.descriptor.interface;
        let kinds = match interface.event_kinds(h.opcode) {
            None => {
                self.fail();
                return Err(Error::ProtocolViolation);
            },
            Some(kinds) => kinds,
        };
        if interface == Interface::Display && h.opcode == DISPLAY_ERROR {
            self.fail();
            return Err(Error::ProtocolViolation);
        }
        match decode(bytes, &kinds) {
            Err(e) => {
                self.fail();
                Err(e)
            },
            Ok(None) => Ok(0),
            Ok(Some((message, consumed))) => {
                self.pending.push(message);
                assert(self.pending@.drop_last() =~= old(self).pending@);
                Ok(consumed)
            },
        }
    }

    /// Takes every whole frame of the bytes that arrived, in order, and
    /// queues its event. Returns the number of bytes taken; the caller keeps
    /// the rest for when more arrive. A fatal error stops the reading and
    /// tears the connection down; the events queued before it stay queued.
    pub fn feed(&mut self, bytes: &[u8]) -> (r: Result<usize, Error>)
        requires
            old(self).wf(),
        ensures
            final(self).wf(),
            final(self).next_id() == old(self).next_id(),
            final(self).globals() == old(self).globals(),
            final(self).registry_state() == old(self).registry_state(),
            final(self).registry() == old(self).registry(),
            final(self).outgoing() == old(self).outgoing(),
            final(self).capacity() == old(self).capacity(),
            queued(old(self).pending(), final(self).pending(), old(self).spec_feed(bytes@).0),
            match r {
                Ok(n) => {
                    &&& old(self).spec_feed(bytes@).2 is None
                    &&& n == old(self).spec_feed(bytes@).1
                    &&& n <= bytes@.len()
                    &&& final(self).alive()
                    &&& final(self).objects() == old(self).objects()
                },
                Err(e) => {
                    &&& old(self).spec_feed(bytes@).2 == Some(e)
                    &&& e == Error::ConnectionError || e == Error::ProtocolViolation
                    &&& !final(self).alive()
                    &&& final(self).objects() == Map::<u32, ObjectRecord>::empty()
                },
            },
    {
        let ghost alive = self.alive();
        let ghost objects = self.objects();
        let ghost before = self.pending();
        let ghost mut frames: Seq<(Header, Seq<ArgValue>)> = Seq::empty();
        let mut pos: usize = 0;
        proof {
            assert(bytes@.skip(0) =~= bytes@);
            assert(frames + spec_stream(alive, objects, bytes@).0 =~= spec_stream(
                alive,
                objects,
                bytes@,
            ).0);
            assert(self.pending().take(before.len() as int) =~= before);
        }
        loop
            invariant
                self.wf(),
                pos <= bytes@.len(),
                self.alive() == alive,
                self.objects() == objects,
                alive == old(self).alive(),
                objects == old(self).objects(),
                before == old(self).pending(),
                self.next_id() == old(self).next_id(),
                self.globals() == old(self).globals(),
                self.registry_state() == old(self).registry_state(),
                self.registry() == old(self).registry(),
                self.outgoing() == old(self).outgoing(),
                self.capacity() == old(self).capacity(),
                queued(before, self.pending(), frames),
                spec_stream(alive, objects, bytes@).0 == frames + spec_stream(
                    alive,
                    objects,
                    bytes@.skip(pos as int),
                ).0,
                spec_stream(alive, objects, bytes@).1 == pos + spec_stream(
                    alive,
                    objects,
                    bytes@.skip(pos as int),
                ).1,
                spec_stream(alive, objects, bytes@).2 == spec_stream(
                    alive,
                    objects,
                    bytes@.skip(pos as int),
                ).2,
            decreases bytes@.len() - pos,
        {
            let rest = slice_subrange(bytes, pos, bytes.len());
            let ghost queue = self.pending();
            proof {
                assert(rest@ =~= bytes@.skip(pos as int));
            }
            match self.receive(rest) {
                Err(e) => {
                    proof {
                        assert(frames + Seq::<(Header, Seq<ArgValue>)>::empty() =~= frames);
                    }
                    return Err(e);
                },
                Ok(n) => {
                    if n == 0 {
                        proof {
                            assert(frames + Seq::<(Header, Seq<ArgValue>)>::empty() =~= frames);
                        }
                        return Ok(pos);
                    }
                    proof {
                        let frame = spec_incoming(alive, objects, rest@).unwrap().unwrap();
                        let tail = spec_stream(alive, objects, rest@.skip(n as int));
                        assert(rest@.skip(n as int) =~= bytes@.skip(pos + n));
                        assert(frames + (seq![frame] + tail.0) =~= frames.push(frame) + tail.0);
                        let after = self.pending();
                        assert(after.drop_last() == queue);
                        assert(after.take(before.len() as int) =~= queue.take(
                            before.len() as int,
                        ));
                        assert forall|j: int| before.len() <= j < queue.len() implies #[trigger]
                            after[j] == queue[j] by {
                            assert(after.drop_last()[j] == after[j]);
                        }
                        frames = frames.push(frame);
                    }
                    pos += n;
                },
            }
        }
    }

    /// Drains the queue: hands over every queued event, oldest first, each
    /// with the handler it goes to. An event whose target is not live
    /// (`UnknownObject`) or has no handler (`DispatchError`) is reported in
    /// its place and the events after it are still delivered. Reads nothing
    /// from the wire.
    pub fn dispatch_pending(&mut self) -> (r: Dispatched)
        requires
            old(self).wf(),
        ensures
            final(self).wf(),
            r.events@ == old(self).pending(),
            r.routes@.len() == r.events@.len(),
            forall|i: int|
                0 <= i < r.events@.len() ==> r.routes@[i] == spec_route(
                    old(self).objects(),
                    r.events@[i].object_id,
                ),
            final(self).pending() == Seq::<Message>::empty(),
            final(self).objects() == old(self).objects(),
            final(self).next_id() == old(self).next_id(),
            final(self).globals() == old(self).globals(),
            final(self).registry_state() == old(self).registry_state(),
            final(self).registry() == old(self).registry(),
            final(self).outgoing() == old(self).outgoing(),
            final(self).capacity() == old(self).capacity(),
            final(self).alive() == old(self).alive(),
    {
        let mut events: Vec<Message> = Vec::new();
        core::mem::swap(&mut self.pending, &mut events);
        let routes = route_all(&self.objects, &events);
        Dispatched { events, routes }
    }

    /// Gives a live object its handler, once; see `ObjectRegistry::bind`.
    pub fn bind(&mut self, id: u32, handler: u32) -> (r: Result<(), Error>)
        requires
            old(self).wf(),
        ensures
            final(self).wf(),
            final(self).same_session(old(self)),
            final(self).registry_state() == old(self).registry_state(),
            final(self).registry() == old(self).registry(),
            final(self).next_id() == old(self).next_id(),
            final(self).outgoing() == old(self).outgoing(),
            match r {
                Ok(_) => {
                    &&& old(self).objects().contains_key(id)
                    &&& old(self).objects()[id].handler is None
                    &&& final(self).objects() == old(self).objects().insert(
                        id,
                        ObjectRecord {
                            descriptor: old(self).objects()[id].descriptor,
                            handler: Some(handler),
                        },
                    )
                },
                Err(e) => {
                    &&& final(self).objects() == old(self).objects()
                    &&& e == (if old(self).objects().contains_key(id) {
                        Error::DuplicateBinding
                    } else {
                        Error::UnknownObject
                    })
                    &&& old(self).objects().contains_key(id) ==> old(
                        self,
                    ).objects()[id].handler is Some
                },
            },
    {
        self.objects.bind(id, handler)
    }

    /// Marks an object destroyed. Events for it that are queued or arrive
    /// later are reported with `UnknownObject`.
    pub fn release(&mut self, id: u32) -> (r: Result<ObjectRecord, Error>)
        requires
            old(self).wf(),
        ensures
            final(self).wf(),
            final(self).same_session(old(self)),
            final(self).registry_state() == old(self).registry_state(),
            final(self).registry() == old(self).registry(),
            final(self).next_id() == old(self).next_id(),
            final(self).outgoing() == old(self).outgoing(),
            final(self).objects() == old(self).objects().remove(id),
            match r {
                Ok(record) => old(self).objects().contains_key(id) && record == old(
                    self,
                ).objects()[id],
                Err(e) => e == Error::UnknownObject && !old(self).objects().contains_key(id),
            },
    {
        let r = self.objects.release(id);
        assert(!self.alive ==> self.objects@ =~= Map::<u32, ObjectRecord>::empty());
        r
    }

    /// Records an advertisement; see `GlobalTable::advertise`.
    pub fn advertise(&mut self, entry: GlobalEntry) -> (r: Result<(), Error>)
        requires
            old(self).wf(),
        ensures
            final(self).wf(),
            final(self).objects() == old(self).objects(),
            final(self).next_id() == old(self).next_id(),
            final(self).registry() == old(self).registry(),
            final(self).pending() == old(self).pending(),
            final(self).outgoing() == old(self).outgoing(),
            final(self).capacity() == old(self).capacity(),
            final(self).alive() == old(self).alive(),
            match r {
                Ok(_) => {
                    &&& old(self).registry_state() != RegistryState::Unbound
                    &&& final(self).globals() == old(self).globals().push(entry)
                    &&& final(self).registry_state() == after_event(old(self).registry_state())
                },
                Err(e) => {
                    &&& e == Error::ProtocolViolation
                    &&& old(self).registry_state() == RegistryState::Unbound
                    &&& final(self).globals() == old(self).globals()
                    &&& final(self).registry_state() == old(self).registry_state()
                },
            },
    {
        self.globals.advertise(entry)
    }

    /// Takes a revoked global out of the table; see `GlobalTable::revoke`.
    pub fn revoke(&mut self, name: u32) -> (r: Result<Option<GlobalEntry>, Error>)
        requires
            old(self).wf(),
        ensures
            final(self).wf(),
            final(self).objects() == old(self).objects(),
            final(self).next_id() == old(self).next_id(),
            final(self).registry() == old(self).registry(),
            final(self).pending() == old(self).pending(),
            final(self).outgoing() == old(self).outgoing(),
            final(self).capacity() == old(self).capacity(),
            final(self).alive() == old(self).alive(),
            match r {
                Ok(Some(entry)) => {
                    &&& old(self).registry_state() != RegistryState::Unbound
                    &&& final(self).registry_state() == after_event(old(self).registry_state())
                    &&& exists|i: int| #[trigger]
                        is_first(old(self).globals(), name, i) && entry == old(self).globals()[i]
                            && final(self).globals() == old(self).globals().remove(i)
                },
                Ok(None) => {
                    &&& old(self).registry_state() != RegistryState::Unbound
                    &&& final(self).registry_state() == after_event(old(self).registry_state())
                    &&& absent(old(self).globals(), name)
                    &&& final(self).globals() == old(self).globals()
                },
                Err(e) => {
                    &&& e == Error::ProtocolViolation
                    &&& old(self).registry_state() == RegistryState::Unbound
                    &&& final(self).globals() == old(self).globals()
                    &&& final(self).registry_state() == old(self).registry_state()
                },
            },
    {
        let r = self.globals.revoke(name);
        proof {
            if r is Ok && r.unwrap() is Some {
                let entry = r.unwrap().unwrap();
                let i = choose|i: int| #[trigger]
                    is_first(old(self).globals@, name, i) && entry == old(self).globals@[i]
                        && self.globals@ == old(self).globals@.remove(i);
                assert(is_first(old(self).globals(), name, i));
            }
        }
        r
    }
}

/// Every event that is queued for a live object is one of the variants of
/// its interface: what `receive` accepts, `event_of` reads.
pub proof fn lemma_queued_events_are_read(
    alive: bool,
    objects: Map<u32, ObjectRecord>,
    bytes: Seq<u8>,
)
    requires
        spec_incoming(alive, objects, bytes) is Ok,
        spec_incoming(alive, objects, bytes).unwrap() is Some,
        objects.contains_key(spec_incoming(alive, objects, bytes).unwrap().unwrap().0.object_id),
    ensures
        ({
            let (h, args) = spec_incoming(alive, objects, bytes).unwrap().unwrap();
            spec_event(objects[h.object_id].descriptor.interface, h.opcode, args) is Some
        }),
{
    let h = spec_peek(bytes).unwrap().unwrap();
    let interface = objects[h.object_id].descriptor.interface;
    let kinds = spec_event_kinds(interface, h.opcode).unwrap();
    lemma_decoded_kinds(bytes.subrange(HEADER_LEN as int, h.size as int), kinds);
    let args = spec_incoming(alive, objects, bytes).unwrap().unwrap().1;
    lemma_schema_events_are_read(interface, h.opcode, args);
}

/// The version rule of binding: for a global that is advertised with the
/// wanted interface, on a connection that has its registry, a requested
/// version above the advertised one is refused with `VersionMismatch`, and
/// one at or below it passes the check, the negotiated version among them.
pub proof fn lemma_bind_version_rule(
    conn: Connection,
    name: u32,
    wanted: Interface,
    requested: u32,
    ceiling: u32,
)
    requires
        conn.registry() is Some,
        spec_advertised(conn.globals(), name) is Some,
        spec_advertised(conn.globals(), name).unwrap().interface@ == spec_name(wanted),
    ensures
        ({
            let advertised = spec_advertised(conn.globals(), name).unwrap().version;
            &&& requested > advertised ==> conn.spec_bind_check(name, wanted, requested) == Err::<
                u32,
                Error,
            >(Error::VersionMismatch)
            &&& requested <= advertised ==> conn.spec_bind_check(name, wanted, requested) == Ok::<
                u32,
                Error,
            >(conn.registry().unwrap())
            &&& conn.spec_bind_check(name, wanted, spec_negotiate(advertised, ceiling)) is Ok
        }),
{
}

} // verus!
