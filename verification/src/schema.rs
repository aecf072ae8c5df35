//! The protocol schema: the interfaces this client knows, their names, and
//! the argument shapes of each request and event.

use vstd::prelude::*;
use crate::wire::ArgKind;

verus! {

/// An interface of the protocol.
#[derive(Clone, Copy, Debug, PartialEq, Eq, Structural)]
pub enum Interface {
    Display,
    Registry,
    Callback,
    Compositor,
    Surface,
}

/// An interface together with the version an object speaks.
#[derive(Clone, Copy, Debug, PartialEq, Eq, Structural)]
pub struct InterfaceDescriptor {
    pub interface: Interface,
    pub version: u32,
}

/// Opcode of the display's synchronization request.
pub const DISPLAY_SYNC: u16 = 0;

/// Opcode of the display's request for the registry.
pub const DISPLAY_GET_REGISTRY: u16 = 1;

/// Opcode of the display's fatal error event.
pub const DISPLAY_ERROR: u16 = 0;

/// Opcode of the compositor's request that creates a surface.
pub const COMPOSITOR_CREATE_SURFACE: u16 = 0;

/// Opcode of the registry's bind request.
pub const REGISTRY_BIND: u16 = 0;

/// Opcode of the registry's event that advertises a global.
pub const REGISTRY_GLOBAL: u16 = 0;

/// Opcode of the registry's event that revokes a global.
pub const REGISTRY_GLOBAL_REMOVE: u16 = 1;

/// The name of an interface, as ASCII bytes.
pub open spec fn spec_name(i: Interface) -> Seq<u8> {
    match i {
        // "wl_display"
        Interface::Display => seq![119u8, 108, 95, 100, 105, 115, 112, 108, 97, 121],
        // "wl_registry"
        Interface::Registry => seq![119u8, 108, 95, 114, 101, 103, 105, 115, 116, 114, 121],
        // "wl_callback"
        Interface::Callback => seq![119u8, 108, 95, 99, 97, 108, 108, 98, 97, 99, 107],
        // "wl_compositor"
        Interface::Compositor => seq![
            119u8, 108, 95, 99, 111, 109, 112, 111, 115, 105, 116, 111, 114,
        ],
        // "wl_surface"
        Interface::Surface => seq![119u8, 108, 95, 115, 117, 114, 102, 97, 99, 101],
    }
}

/// The argument shapes of a request, or `None` where the interface has no
/// request with that opcode.
pub open spec fn spec_request_kinds(i: Interface, opcode: u16) -> Option<Seq<ArgKind>> {
    match i {
        Interface::Display => if opcode == 0 || opcode == 1 {
            // sync(callback), get_registry(registry)
            Some(seq![ArgKind::Uint])
        } else {
            None
        },
        Interface::Registry => if opcode == 0 {
            // bind(name, interface, version, id)
            Some(seq![ArgKind::Uint, ArgKind::Str, ArgKind::Uint, ArgKind::Uint])
        } else {
            None
        },
        Interface::Callback => None,
        Interface::Compositor => if opcode == 0 || opcode == 1 {
            // create_surface(id), create_region(id)
            Some(seq![ArgKind::Uint])
        } else {
            None
        },
        Interface::Surface => if opcode == 0 {
            // destroy()
            Some(Seq::empty())
        } else {
            None
        },
    }
}

/// The argument shapes of an event, or `None` where the interface has no
/// event with that opcode.
pub open spec fn spec_event_kinds(i: Interface, opcode: u16) -> Option<Seq<ArgKind>> {
    match i {
        Interface::Display => if opcode == 0 {
            // error(object, code, message)
            Some(seq![ArgKind::Uint, ArgKind::Uint, ArgKind::Str])
        } else if opcode == 1 {
            // delete_id(id)
            Some(seq![ArgKind::Uint])
        } else {
            None
        },
        Interface::Registry => if opcode == 0 {
            // global(name, interface, version)
            Some(seq![ArgKind::Uint, ArgKind::Str, ArgKind::Uint])
        } else if opcode == 1 {
            // global_remove(name)
            Some(seq![ArgKind::Uint])
        } else {
            None
        },
        Interface::Callback => if opcode == 0 {
            // done(data)
            Some(seq![ArgKind::Uint])
        } else {
            None
        },
        Interface::Compositor => None,
        Interface::Surface => if opcode == 0 || opcode == 1 {
            // enter(output), leave(output)
            Some(seq![ArgKind::Uint])
        } else {
            None
        },
    }
}

/// Whether two byte strings are the same.
pub fn bytes_eq(a: &[u8], b: &[u8]) -> (r: bool)
    ensures
        r == (a@ == b@),
{
    if a.len() != b.len() {
        return false;
    }
    let mut i: usize = 0;
    while i < a.len()
        invariant
            i <= a.len(),
            a@.len() == b@.len(),
            forall|j: int| 0 <= j < i ==> a@[j] == b@[j],
        decreases a.len() - i,
    {
        if a[i] != b[i] {
            return false;
        }
        i += 1;
    }
    assert(a@ =~= b@);
    true
}

impl Interface {
    /// The name of the interface, as ASCII bytes.
    pub fn name(self) -> (r: Vec<u8>)
        ensures
            r@ == spec_name(self),
    {
        let r = match self {
            Interface::Display => vec![119u8, 108, 95, 100, 105, 115, 112, 108, 97, 121],
            Interface::Registry => vec![119u8, 108, 95, 114, 101, 103, 105, 115, 116, 114, 121],
            Interface::Callback => vec![119u8, 108, 95, 99, 97, 108, 108, 98, 97, 99, 107],
            Interface::Compositor => vec![
                119u8, 108, 95, 99, 111, 109, 112, 111, 115, 105, 116, 111, 114,
            ],
            Interface::Surface => vec![119u8, 108, 95, 115, 117, 114, 102, 97, 99, 101],
        };
        assert(r@ =~= spec_name(self));
        r
    }

    /// Whether `name` is the name of this interface.
    pub fn is_named(self, name: &[u8]) -> (r: bool)
        ensures
            r == (name@ == spec_name(self)),
    {
        let own = self.name();
        bytes_eq(name, own.as_slice())
    }

    /// The argument shapes of the request with this opcode.
    pub fn request_kinds(self, opcode: u16) -> (r: Option<Vec<ArgKind>>)
        ensures
            match r {
                Some(kinds) => spec_request_kinds(self, opcode) == Some(kinds@),
                None => spec_request_kinds(self, opcode) is None,
            },
    {
        let r = match self {
            Interface::Display => if opcode == 0 || opcode == 1 {
                Some(vec![ArgKind::Uint])
            } else {
                None
            },
            Interface::Registry => if opcode == 0 {
                Some(vec![ArgKind::Uint, ArgKind::Str, ArgKind::Uint, ArgKind::Uint])
            } else {
                None
            },
            Interface::Callback => None,
            Interface::Compositor => if opcode == 0 || opcode == 1 {
                Some(vec![ArgKind::Uint])
            } else {
                None
            },
            Interface::Surface => if opcode == 0 {
                Some(Vec::new())
            } else {
                None
            },
        };
        proof {
            if r is Some {
                assert(spec_request_kinds(self, opcode).unwrap() =~= r.unwrap()@);
            }
        }
        r
    }

    /// The argument shapes of the event with this opcode.
    pub fn event_kinds(self, opcode: u16) -> (r: Option<Vec<ArgKind>>)
        ensures
            match r {
                Some(kinds) => spec_event_kinds(self, opcode) == Some(kinds@),
                None => spec_event_kinds(self, opcode) is None,
            },
    {
        let r = match self {
            Interface::Display => if opcode == 0 {
                Some(vec![ArgKind::Uint, ArgKind::Uint, ArgKind::Str])
            } else if opcode == 1 {
                Some(vec![ArgKind::Uint])
            } else {
                None
            },
            Interface::Registry => if opcode == 0 {
                Some(vec![ArgKind::Uint, ArgKind::Str, ArgKind::Uint])
            } else if opcode == 1 {
                Some(vec![ArgKind::Uint])
            } else {
                None
            },
            Interface::Callback => if opcode == 0 {
                Some(vec![ArgKind::Uint])
            } else {
                None
            },
            Interface::Compositor => None,
            Interface::Surface => if opcode == 0 || opcode == 1 {
                Some(vec![ArgKind::Uint])
            } else {
                None
            },
        };
        proof {
            if r is Some {
                assert(spec_event_kinds(self, opcode).unwrap() =~= r.unwrap()@);
            }
        }
        r
    }
}

} // verus!
