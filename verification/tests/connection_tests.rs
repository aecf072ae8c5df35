use wlcore::codec::{decode, encode};
use wlcore::connection::Connection;
use wlcore::error::Error;
use wlcore::event::{event_of, Event};
use wlcore::globals::{negotiate, GlobalEntry, RegistryState};
use wlcore::registry::ObjectRecord;
use wlcore::schema::{Interface, InterfaceDescriptor, COMPOSITOR_CREATE_SURFACE};
use wlcore::wire::{Arg, ArgKind, Message};

const REGISTRY_HANDLER: u32 = 10;
const COMPOSITOR_HANDLER: u32 = 20;
const SYNC_HANDLER: u32 = 30;

fn entry(name: u32, interface: &str, version: u32) -> GlobalEntry {
    GlobalEntry { name, interface: interface.as_bytes().to_vec(), version }
}

fn global_event(registry: u32, name: u32, interface: &str, version: u32) -> Vec<u8> {
    let args =
        vec![Arg::Uint(name), Arg::Str(interface.as_bytes().to_vec()), Arg::Uint(version)];
    encode(registry, 0, &args).unwrap()
}

fn listening() -> (Connection, u32) {
    let mut conn = Connection::new(4096);
    let registry = conn.get_registry(REGISTRY_HANDLER).unwrap();
    conn.take_outgoing();
    (conn, registry)
}

#[test]
fn display_object_is_always_one() {
    let conn = Connection::new(64);
    assert_eq!(conn.display_object(), 1);
    assert!(conn.is_alive());
    assert_eq!(conn.pending_len(), 0);
    assert!(conn.outgoing_bytes().is_empty());
    assert_eq!(conn.registry_object(), None);
}

#[test]
fn get_registry_sends_the_request_and_listens() {
    let mut conn = Connection::new(64);
    assert_eq!(conn.get_registry(REGISTRY_HANDLER), Ok(2));
    assert_eq!(conn.registry_object(), Some(2));
    assert_eq!(conn.global_table().current_state(), RegistryState::Listening);
    assert_eq!(conn.outgoing_bytes(), &vec![1, 0, 0, 0, 1, 0, 12, 0, 2, 0, 0, 0]);
    assert_eq!(conn.object_table().route(2), Ok(REGISTRY_HANDLER));
    assert_eq!(conn.get_registry(REGISTRY_HANDLER), Err(Error::DuplicateBinding));
    assert_eq!(conn.outgoing_bytes().len(), 12);
}

#[test]
fn bind_at_the_advertised_version_allocates_a_fresh_object() {
    let (mut conn, registry) = listening();
    conn.advertise(entry(1, "wl_compositor", 4)).unwrap();
    conn.advertise(entry(2, "wl_shm", 1)).unwrap();
    let version = negotiate(4, 4);
    assert_eq!(version, 4);
    let id = conn.bind_global(1, Interface::Compositor, version, COMPOSITOR_HANDLER).unwrap();
    assert_ne!(id, 1);
    assert_ne!(id, registry);
    assert_eq!(
        conn.object_table().lookup(id),
        Some(ObjectRecord {
            descriptor: InterfaceDescriptor { interface: Interface::Compositor, version: 4 },
            handler: Some(COMPOSITOR_HANDLER),
        })
    );
    assert_eq!(conn.global_table().current_state(), RegistryState::Bound);
    let expected = encode(
        registry,
        0,
        &vec![Arg::Uint(1), Arg::Str(b"wl_compositor".to_vec()), Arg::Uint(4), Arg::Uint(id)],
    )
    .unwrap();
    assert_eq!(conn.outgoing_bytes(), &expected);
}

#[test]
fn bind_is_capped_by_the_advertised_version() {
    let (mut conn, _) = listening();
    conn.advertise(entry(1, "wl_compositor", 2)).unwrap();
    let version = negotiate(2, 4);
    assert_eq!(version, 2);
    let id = conn.bind_global(1, Interface::Compositor, version, COMPOSITOR_HANDLER).unwrap();
    assert_eq!(conn.object_table().lookup(id).unwrap().descriptor.version, 2);
}

#[test]
fn bind_above_the_advertised_version_is_a_mismatch() {
    let (mut conn, _) = listening();
    conn.advertise(entry(1, "wl_compositor", 2)).unwrap();
    assert_eq!(
        conn.bind_global(1, Interface::Compositor, 4, COMPOSITOR_HANDLER),
        Err(Error::VersionMismatch)
    );
    assert_eq!(
        conn.bind_global(1, Interface::Compositor, 3, COMPOSITOR_HANDLER),
        Err(Error::VersionMismatch)
    );
    assert!(conn.outgoing_bytes().is_empty());
    assert_eq!(conn.object_table().lookup(3), None);
    assert!(conn.bind_global(1, Interface::Compositor, 1, COMPOSITOR_HANDLER).is_ok());
}

#[test]
fn bind_of_an_unadvertised_global_fails_and_changes_nothing() {
    let mut fresh = Connection::new(64);
    assert_eq!(
        fresh.bind_global(1, Interface::Compositor, 1, COMPOSITOR_HANDLER),
        Err(Error::UnknownObject)
    );
    let (mut conn, _) = listening();
    conn.advertise(entry(2, "wl_shm", 1)).unwrap();
    assert_eq!(
        conn.bind_global(1, Interface::Compositor, 1, COMPOSITOR_HANDLER),
        Err(Error::UnknownObject)
    );
    conn.advertise(entry(3, "wl_compositor", 4)).unwrap();
    assert_eq!(conn.revoke(3), Ok(Some(entry(3, "wl_compositor", 4))));
    assert_eq!(
        conn.bind_global(3, Interface::Compositor, 1, COMPOSITOR_HANDLER),
        Err(Error::UnknownObject)
    );
    assert!(conn.is_alive());
    assert!(conn.outgoing_bytes().is_empty());
    assert_eq!(conn.global_table().len(), 1);
}

#[test]
fn bind_of_a_global_as_another_interface_is_a_protocol_violation() {
    let (mut conn, registry) = listening();
    conn.advertise(entry(2, "wl_shm", 1)).unwrap();
    assert_eq!(
        conn.bind_global(2, Interface::Compositor, 1, COMPOSITOR_HANDLER),
        Err(Error::ProtocolViolation)
    );
    assert!(!conn.is_alive());
    assert_eq!(conn.object_table().lookup(registry), None);
    assert!(conn.outgoing_bytes().is_empty());
}

#[test]
fn two_sends_leave_two_whole_frames_in_order() {
    let mut conn = Connection::new(4096);
    conn.send(1, 0, &vec![Arg::Uint(40)]).unwrap();
    conn.send(1, 1, &vec![Arg::Uint(41)]).unwrap();
    let wire = conn.take_outgoing();
    assert!(conn.outgoing_bytes().is_empty());
    let kinds = vec![ArgKind::Uint];
    let (first, n1) = decode(&wire, &kinds).unwrap().unwrap();
    assert_eq!(first, Message { object_id: 1, opcode: 0, args: vec![Arg::Uint(40)] });
    let rest = wire[n1..].to_vec();
    let (second, n2) = decode(&rest, &kinds).unwrap().unwrap();
    assert_eq!(second, Message { object_id: 1, opcode: 1, args: vec![Arg::Uint(41)] });
    assert_eq!(n1 + n2, wire.len());
}

#[test]
fn send_checks_the_request_against_the_schema() {
    let mut unknown_opcode = Connection::new(4096);
    assert_eq!(unknown_opcode.send(1, 9, &vec![Arg::Uint(1)]), Err(Error::ProtocolViolation));
    assert!(!unknown_opcode.is_alive());
    assert!(unknown_opcode.outgoing_bytes().is_empty());
    assert_eq!(unknown_opcode.object_table().lookup(1), None);

    let mut wrong_shape = Connection::new(4096);
    assert_eq!(wrong_shape.send(1, 0, &vec![Arg::Str(Vec::new())]), Err(Error::ProtocolViolation));
    assert!(!wrong_shape.is_alive());

    let mut too_few = Connection::new(4096);
    assert_eq!(too_few.send(1, 0, &vec![]), Err(Error::ProtocolViolation));
    assert!(!too_few.is_alive());
}

#[test]
fn send_to_an_object_that_is_not_live_changes_nothing() {
    let mut conn = Connection::new(4096);
    assert_eq!(conn.send(5, 0, &vec![Arg::Uint(1)]), Err(Error::UnknownObject));
    assert!(conn.outgoing_bytes().is_empty());
    assert!(conn.is_alive());
    assert_eq!(conn.send(1, 0, &vec![Arg::Uint(1)]), Ok(()));
}

#[test]
fn send_reports_backpressure_when_the_buffer_is_full() {
    let mut conn = Connection::new(20);
    assert_eq!(conn.send(1, 0, &vec![Arg::Uint(1)]), Ok(()));
    assert_eq!(conn.send(1, 0, &vec![Arg::Uint(2)]), Err(Error::Backpressure));
    assert_eq!(conn.outgoing_bytes().len(), 12);
    assert_eq!(conn.begin_roundtrip(SYNC_HANDLER), Err(Error::Backpressure));
    assert_eq!(conn.object_table().lookup(2), None);
    conn.take_outgoing();
    assert_eq!(conn.send(1, 0, &vec![Arg::Uint(2)]), Ok(()));
}

#[test]
fn advertisements_are_dispatched_in_the_order_received() {
    let (mut conn, registry) = listening();
    let callback = conn.begin_roundtrip(SYNC_HANDLER).unwrap();
    assert_eq!(conn.take_outgoing(), vec![1, 0, 0, 0, 0, 0, 12, 0, 3, 0, 0, 0]);
    let mut wire = Vec::new();
    wire.extend_from_slice(&global_event(registry, 1, "wl_compositor", 4));
    wire.extend_from_slice(&global_event(registry, 2, "wl_shm", 1));
    wire.extend_from_slice(&global_event(registry, 3, "wl_seat", 7));
    wire.extend_from_slice(&encode(callback, 0, &vec![Arg::Uint(0)]).unwrap());
    let mut guard = 0;
    while !conn.sync_arrived(callback) {
        let n = conn.receive(&wire).unwrap();
        assert!(n > 0);
        wire.drain(..n);
        guard += 1;
        assert!(guard < 10);
    }
    assert!(wire.is_empty());
    let dispatched = conn.dispatch_pending();
    assert_eq!(dispatched.count(), 4);
    assert_eq!(conn.pending_len(), 0);
    assert_eq!(
        dispatched.routes,
        vec![
            Ok(REGISTRY_HANDLER),
            Ok(REGISTRY_HANDLER),
            Ok(REGISTRY_HANDLER),
            Ok(SYNC_HANDLER)
        ]
    );
    let events: Vec<Event> = dispatched.events[..3]
        .iter()
        .map(|m| event_of(Interface::Registry, m).unwrap())
        .collect();
    assert_eq!(
        events,
        vec![
            Event::Global { name: 1, interface: b"wl_compositor".to_vec(), version: 4 },
            Event::Global { name: 2, interface: b"wl_shm".to_vec(), version: 1 },
            Event::Global { name: 3, interface: b"wl_seat".to_vec(), version: 7 },
        ]
    );
    assert_eq!(
        event_of(Interface::Callback, &dispatched.events[3]),
        Some(Event::Done { data: 0 })
    );
    assert_eq!(conn.dispatch_pending().count(), 0);
}

#[test]
fn receive_waits_for_the_whole_frame() {
    let (mut conn, registry) = listening();
    let frame = global_event(registry, 1, "wl_shm", 1);
    let part: Vec<u8> = frame[..frame.len() - 5].to_vec();
    assert_eq!(conn.receive(&part), Ok(0));
    assert_eq!(conn.pending_len(), 0);
    assert_eq!(conn.receive(&frame), Ok(frame.len()));
    assert_eq!(conn.pending_len(), 1);
}

#[test]
fn an_event_for_a_released_object_is_reported_and_draining_goes_on() {
    let (mut conn, registry) = listening();
    let callback = conn.begin_roundtrip(SYNC_HANDLER).unwrap();
    let unbound = conn.object_table().peek_free().unwrap();
    assert_eq!(conn.receive(&encode(callback, 0, &vec![Arg::Uint(5)]).unwrap()), Ok(12));
    assert_eq!(conn.receive(&global_event(registry, 1, "wl_shm", 1)).is_ok(), true);
    assert!(conn.release(callback).is_ok());
    assert_eq!(conn.receive(&encode(callback, 0, &vec![Arg::Uint(6)]).unwrap()), Ok(12));
    assert_eq!(conn.receive(&encode(unbound, 3, &vec![]).unwrap()), Ok(8));
    let dispatched = conn.dispatch_pending();
    assert_eq!(
        dispatched.routes,
        vec![
            Err(Error::UnknownObject),
            Ok(REGISTRY_HANDLER),
            Err(Error::UnknownObject),
            Err(Error::UnknownObject)
        ]
    );
    assert_eq!(dispatched.events[0].args, vec![Arg::Uint(5)]);
    assert_eq!(dispatched.events[2].args, vec![Arg::Array(vec![6, 0, 0, 0])]);
    assert!(conn.is_alive());
}

#[test]
fn an_event_for_an_object_without_handler_is_a_dispatch_error() {
    let mut conn = Connection::new(64);
    assert_eq!(conn.receive(&encode(1, 1, &vec![Arg::Uint(9)]).unwrap()), Ok(12));
    let dispatched = conn.dispatch_pending();
    assert_eq!(dispatched.routes, vec![Err(Error::DispatchError)]);
    assert_eq!(conn.bind(1, 4), Ok(()));
    assert_eq!(conn.bind(1, 4), Err(Error::DuplicateBinding));
}

#[test]
fn a_fatal_error_tears_the_connection_down() {
    let (mut conn, registry) = listening();
    let error_event =
        encode(1, 0, &vec![Arg::Uint(registry), Arg::Uint(0), Arg::Str(b"bad".to_vec())]).unwrap();
    assert_eq!(conn.receive(&error_event), Err(Error::ProtocolViolation));
    assert!(!conn.is_alive());
    assert_eq!(conn.object_table().lookup(registry), None);
    assert_eq!(conn.object_table().lookup(1), None);
    assert_eq!(conn.send(1, 0, &vec![Arg::Uint(1)]), Err(Error::ConnectionError));
    assert_eq!(conn.receive(&error_event), Err(Error::ConnectionError));
}

#[test]
fn a_malformed_frame_or_unknown_event_is_fatal() {
    let (mut conn, registry) = listening();
    assert_eq!(conn.receive(&encode(registry, 9, &vec![]).unwrap()), Err(Error::ProtocolViolation));
    assert!(!conn.is_alive());
    let (mut other, _) = listening();
    assert_eq!(other.receive(&vec![1, 0, 0, 0, 0, 0, 6, 0]), Err(Error::ProtocolViolation));
    assert!(!other.is_alive());
    let (mut third, registry) = listening();
    let short = encode(registry, 1, &vec![]).unwrap();
    assert_eq!(third.receive(&short), Err(Error::ProtocolViolation));
    let mut fourth = Connection::new(64);
    fourth.fail();
    assert!(!fourth.is_alive());
}

#[test]
fn feed_queues_every_whole_frame_and_leaves_the_rest() {
    let (mut conn, registry) = listening();
    let mut wire = Vec::new();
    wire.extend_from_slice(&global_event(registry, 1, "wl_compositor", 4));
    wire.extend_from_slice(&global_event(registry, 2, "wl_shm", 1));
    let whole = wire.len();
    let next = encode(registry, 1, &vec![Arg::Uint(2)]).unwrap();
    wire.extend_from_slice(&next[..7]);
    assert_eq!(conn.feed(&wire), Ok(whole));
    assert_eq!(conn.pending_len(), 2);
    let mut rest: Vec<u8> = wire[whole..].to_vec();
    assert_eq!(conn.feed(&rest), Ok(0));
    rest.extend_from_slice(&next[7..]);
    assert_eq!(conn.feed(&rest), Ok(12));
    let dispatched = conn.dispatch_pending();
    assert_eq!(dispatched.count(), 3);
    assert_eq!(
        event_of(Interface::Registry, &dispatched.events[2]),
        Some(Event::GlobalRemove { name: 2 })
    );
    assert_eq!(conn.feed(&[]), Ok(0));
}

#[test]
fn feed_stops_at_a_fatal_frame_and_keeps_what_came_before() {
    let (mut conn, registry) = listening();
    let mut wire = global_event(registry, 1, "wl_shm", 1);
    wire.extend_from_slice(&encode(registry, 7, &vec![]).unwrap());
    wire.extend_from_slice(&global_event(registry, 2, "wl_seat", 1));
    assert_eq!(conn.feed(&wire), Err(Error::ProtocolViolation));
    assert!(!conn.is_alive());
    assert_eq!(conn.pending_len(), 1);
    let dispatched = conn.dispatch_pending();
    assert_eq!(dispatched.routes, vec![Err(Error::UnknownObject)]);
    assert_eq!(conn.feed(&wire), Err(Error::ConnectionError));
}

#[test]
fn finish_roundtrip_waits_for_the_reply_then_drains_and_releases() {
    let (mut conn, registry) = listening();
    let callback = conn.begin_roundtrip(SYNC_HANDLER).unwrap();
    conn.feed(&global_event(registry, 1, "wl_compositor", 4)).unwrap();
    assert!(conn.finish_roundtrip(callback).is_none());
    assert_eq!(conn.pending_len(), 1);
    conn.feed(&encode(callback, 0, &vec![Arg::Uint(0)]).unwrap()).unwrap();
    let dispatched = conn.finish_roundtrip(callback).unwrap();
    assert_eq!(dispatched.routes, vec![Ok(REGISTRY_HANDLER), Ok(SYNC_HANDLER)]);
    assert_eq!(conn.pending_len(), 0);
    assert_eq!(conn.object_table().lookup(callback), None);
    assert_eq!(conn.object_table().route(registry), Ok(REGISTRY_HANDLER));
}

#[test]
fn event_of_reads_each_variant_and_refuses_other_shapes() {
    let message = |opcode: u16, args: Vec<Arg>| Message { object_id: 1, opcode, args };
    assert_eq!(
        event_of(
            Interface::Display,
            &message(0, vec![Arg::Uint(3), Arg::Uint(1), Arg::Str(b"no".to_vec())])
        ),
        Some(Event::DisplayError { object_id: 3, code: 1, message: b"no".to_vec() })
    );
    assert_eq!(
        event_of(Interface::Display, &message(1, vec![Arg::Uint(3)])),
        Some(Event::DeleteId { id: 3 })
    );
    assert_eq!(
        event_of(Interface::Surface, &message(0, vec![Arg::Uint(8)])),
        Some(Event::Enter { output: 8 })
    );
    assert_eq!(
        event_of(Interface::Surface, &message(1, vec![Arg::Uint(8)])),
        Some(Event::Leave { output: 8 })
    );
    assert_eq!(event_of(Interface::Compositor, &message(0, vec![])), None);
    assert_eq!(event_of(Interface::Callback, &message(1, vec![Arg::Uint(0)])), None);
    assert_eq!(event_of(Interface::Callback, &message(0, vec![Arg::Array(vec![])])), None);
    assert_eq!(
        event_of(
            Interface::Registry,
            &message(0, vec![Arg::Uint(1), Arg::Array(b"x".to_vec()), Arg::Uint(1)])
        ),
        None
    );
}

#[test]
fn a_surface_is_created_through_the_bound_compositor() {
    let (mut conn, _) = listening();
    conn.advertise(entry(1, "wl_compositor", 4)).unwrap();
    let compositor = conn.bind_global(1, Interface::Compositor, 4, COMPOSITOR_HANDLER).unwrap();
    conn.take_outgoing();
    let descriptor = InterfaceDescriptor { interface: Interface::Surface, version: 4 };
    let surface = conn.create(compositor, COMPOSITOR_CREATE_SURFACE, Vec::new(), descriptor, 40);
    assert_eq!(surface, Ok(compositor + 1));
    assert_eq!(
        conn.outgoing_bytes(),
        &encode(compositor, 0, &vec![Arg::Uint(compositor + 1)]).unwrap()
    );
    assert_eq!(conn.object_table().route(compositor + 1), Ok(40));
    assert_eq!(
        conn.create(99, COMPOSITOR_CREATE_SURFACE, Vec::new(), descriptor, 41),
        Err(Error::UnknownObject)
    );
    assert_eq!(conn.object_table().lookup(compositor + 2), None);
    assert!(conn.is_alive());
}
