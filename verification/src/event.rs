//! Events as a closed set of variants, read from a message's opcode and
//! arguments according to the interface of the object it is for.

use vstd::prelude::*;
use crate::codec::copy_range;
use crate::schema::{spec_event_kinds, Interface};
use crate::wire::{kinds_of, view_args, Arg, ArgValue, Message};

verus! {

/// An event of one of the interfaces this client knows.
#[derive(Clone, Debug, PartialEq, Eq)]
pub enum Event {
    /// The display reports a fatal error of an object.
    DisplayError { object_id: u32, code: u32, message: Vec<u8> },
    /// The display confirms that an object id is free again.
    DeleteId { id: u32 },
    /// The registry advertises a global.
    Global { name: u32, interface: Vec<u8>, version: u32 },
    /// The registry revokes a global.
    GlobalRemove { name: u32 },
    /// A callback fires.
    Done { data: u32 },
    /// A surface enters an output.
    Enter { output: u32 },
    /// A surface leaves an output.
    Leave { output: u32 },
}

/// What an event is, mathematically.
pub enum EventValue {
    DisplayError { object_id: u32, code: u32, message: Seq<u8> },
    DeleteId { id: u32 },
    Global { name: u32, interface: Seq<u8>, version: u32 },
    GlobalRemove { name: u32 },
    Done { data: u32 },
    Enter { output: u32 },
    Leave { output: u32 },
}

impl View for Event {
    type V = EventValue;

    open spec fn view(&self) -> EventValue {
        match *self {
            Event::DisplayError { object_id, code, message } => EventValue::DisplayError {
                object_id,
                code,
                message: message@,
            },
            Event::DeleteId { id } => EventValue::DeleteId { id },
            Event::Global { name, interface, version } => EventValue::Global {
                name,
                interface: interface@,
                version,
            },
            Event::GlobalRemove { name } => EventValue::GlobalRemove { name },
            Event::Done { data } => EventValue::Done { data },
            Event::Enter { output } => EventValue::Enter { output },
            Event::Leave { output } => EventValue::Leave { output },
        }
    }
}

/// The single `u32` that the arguments are, if they are one.
pub open spec fn spec_one_uint(args: Seq<ArgValue>) -> Option<u32> {
    if args.len() != 1 {
        None
    } else {
        match args[0] {
            ArgValue::Uint(x) => Some(x),
            _ => None,
        }
    }
}

/// The event that an opcode and arguments are for an object of the given
/// interface, or `None` where the interface has no event of that opcode and
/// those argument shapes.
pub open spec fn spec_event(interface: Interface, opcode: u16, args: Seq<ArgValue>) -> Option<
    EventValue,
> {
    match interface {
        Interface::Display => if opcode == 0 {
            if args.len() != 3 {
                None
            } else {
                match (args[0], args[1], args[2]) {
                    (ArgValue::Uint(object_id), ArgValue::Uint(code), ArgValue::Str(message)) => {
                        Some(EventValue::DisplayError { object_id, code, message })
                    },
                    _ => None,
                }
            }
        } else if opcode == 1 {
            match spec_one_uint(args) {
                Some(id) => Some(EventValue::DeleteId { id }),
                None => None,
            }
        } else {
            None
        },
        Interface::Registry => if opcode == 0 {
            if args.len() != 3 {
                None
            } else {
                match (args[0], args[1], args[2]) {
                    (ArgValue::Uint(name), ArgValue::Str(interface), ArgValue::Uint(version)) => {
                        Some(EventValue::Global { name, interface, version })
                    },
                    _ => None,
                }
            }
        } else if opcode == 1 {
            match spec_one_uint(args) {
                Some(name) => Some(EventValue::GlobalRemove { name }),
                None => None,
            }
        } else {
            None
        },
        Interface::Callback => if opcode == 0 {
            match spec_one_uint(args) {
                Some(data) => Some(EventValue::Done { data }),
                None => None,
            }
        } else {
            None
        },
        Interface::Compositor => None,
        Interface::Surface => if opcode == 0 {
            match spec_one_uint(args) {
                Some(output) => Some(EventValue::Enter { output }),
                None => None,
            }
        } else if opcode == 1 {
            match spec_one_uint(args) {
                Some(output) => Some(EventValue::Leave { output }),
                None => None,
            }
        } else {
            None
        },
    }
}

fn one_uint(args: &Vec<Arg>) -> (r: Option<u32>)
    ensures
        r == spec_one_uint(view_args(args@)),
{
    if args.len() != 1 {
        return None;
    }
    match &args[0] {
        Arg::Uint(x) => Some(*x),
        _ => None,
    }
}

fn uint_bytes_uint(args: &Vec<Arg>) -> (r: Option<(u32, Vec<u8>, u32)>)
    ensures
        match r {
            Some((a, s, b)) => view_args(args@) == seq![
                ArgValue::Uint(a),
                ArgValue::Str(s@),
                ArgValue::Uint(b),
            ],
            None => args@.len() != 3 || !(view_args(args@)[0] is Uint && view_args(args@)[1] is Str
                && view_args(args@)[2] is Uint),
        },
{
    if args.len() != 3 {
        return None;
    }
    match (&args[0], &args[1], &args[2]) {
        (Arg::Uint(a), Arg::Str(s), Arg::Uint(b)) => {
            let copy = copy_range(s.as_slice(), 0, s.len());
            assert(copy@ =~= s@);
            assert(view_args(args@) =~= seq![
                ArgValue::Uint(*a),
                ArgValue::Str(copy@),
                ArgValue::Uint(*b),
            ]);
            Some((*a, copy, *b))
        },
        _ => None,
    }
}

fn uint_uint_bytes(args: &Vec<Arg>) -> (r: Option<(u32, u32, Vec<u8>)>)
    ensures
        match r {
            Some((a, b, s)) => view_args(args@) == seq![
                ArgValue::Uint(a),
                ArgValue::Uint(b),
                ArgValue::Str(s@),
            ],
            None => args@.len() != 3 || !(view_args(args@)[0] is Uint && view_args(args@)[1] is Uint
                && view_args(args@)[2] is Str),
        },
{
    if args.len() != 3 {
        return None;
    }
    match (&args[0], &args[1], &args[2]) {
        (Arg::Uint(a), Arg::Uint(b), Arg::Str(s)) => {
            let copy = copy_range(s.as_slice(), 0, s.len());
            assert(copy@ =~= s@);
            assert(view_args(args@) =~= seq![
                ArgValue::Uint(*a),
                ArgValue::Uint(*b),
                ArgValue::Str(copy@),
            ]);
            Some((*a, *b, copy))
        },
        _ => None,
    }
}

/// Reads a message as an event of the given interface.
pub fn event_of(interface: Interface, message: &Message) -> (r: Option<Event>)
    ensures
        match r {
            Some(event) => spec_event(interface, message.opcode, view_args(message.args@)) == Some(
                event@,
            ),
            None => spec_event(interface, message.opcode, view_args(message.args@)) is None,
        },
{
    let opcode = message.opcode;
    let args = &message.args;
    match interface {
        Interface::Display => if opcode == 0 {
            match uint_uint_bytes(args) {
                Some((object_id, code, text)) => Some(
                    Event::DisplayError { object_id, code, message: text },
                ),
                None => None,
            }
        } else if opcode == 1 {
            match one_uint(args) {
                Some(id) => Some(Event::DeleteId { id }),
                None => None,
            }
        } else {
            None
        },
        Interface::Registry => if opcode == 0 {
            match uint_bytes_uint(args) {
                Some((name, interface, version)) => Some(Event::Global { name, interface, version }),
                None => None,
            }
        } else if opcode == 1 {
            match one_uint(args) {
                Some(name) => Some(Event::GlobalRemove { name }),
                None => None,
            }
        } else {
            None
        },
        Interface::Callback => if opcode == 0 {
            match one_uint(args) {
                Some(data) => Some(Event::Done { data }),
                None => None,
            }
        } else {
            None
        },
        Interface::Compositor => None,
        Interface::Surface => if opcode == 0 {
            match one_uint(args) {
                Some(output) => Some(Event::Enter { output }),
                None => None,
            }
        } else if opcode == 1 {
            match one_uint(args) {
                Some(output) => Some(Event::Leave { output }),
                None => None,
            }
        } else {
            None
        },
    }
}

/// Every message whose arguments have the shapes that the schema gives for
/// its opcode is an event: the variants cover the schema.
pub proof fn lemma_schema_events_are_read(interface: Interface, opcode: u16, args: Seq<ArgValue>)
    requires
        spec_event_kinds(interface, opcode) == Some(kinds_of(args)),
    ensures
        spec_event(interface, opcode, args) is Some,
{
    let kinds = spec_event_kinds(interface, opcode).unwrap();
    assert(kinds.len() == args.len());
    assert(forall|i: int| 0 <= i < args.len() ==> kinds[i] == crate::wire::kind_of(args[i]));
    if args.len() >= 1 {
        assert(kinds[0] == crate::wire::kind_of(args[0]));
    }
    if args.len() >= 3 {
        assert(kinds[1] == crate::wire::kind_of(args[1]));
        assert(kinds[2] == crate::wire::kind_of(args[2]));
    }
}

} // verus!
