//! The globals that the server advertises, the life cycle of the registry
//! object that announces them, and the rule for the version to bind.

use vstd::prelude::*;
use crate::error::Error;
use crate::schema::{spec_name, Interface};

verus! {

/// One advertised global: the server's name for it, the interface it offers
/// and the highest version the server speaks.
#[derive(Clone, Debug, PartialEq, Eq)]
pub struct GlobalEntry {
    pub name: u32,
    pub interface: Vec<u8>,
    pub version: u32,
}

/// Where the registry object stands.
#[derive(Clone, Copy, Debug, PartialEq, Eq, Structural)]
pub enum RegistryState {
    /// The client has not asked for the registry.
    Unbound,
    /// The client has asked; nothing was advertised yet.
    Listening,
    /// The server has advertised or revoked at least one global.
    Advertising,
    /// The client has bound at least one global.
    Bound,
}

/// The version to ask for: the lower of what the server advertises and what
/// the client supports.
pub open spec fn spec_negotiate(advertised: u32, ceiling: u32) -> u32 {
    if advertised <= ceiling {
        advertised
    } else {
        ceiling
    }
}

/// Whether a requested version may be bound against an advertised one.
pub open spec fn spec_check_version(advertised: u32, requested: u32) -> Result<u32, Error> {
    if requested > advertised {
        Err(Error::VersionMismatch)
    } else {
        Ok(requested)
    }
}

/// `i` is the first place at which `entries` holds a global named `name`.
pub open spec fn is_first(entries: Seq<GlobalEntry>, name: u32, i: int) -> bool {
    &&& 0 <= i < entries.len()
    &&& entries[i].name == name
    &&& forall|j: int| 0 <= j < i ==> entries[j].name != name
}

/// No global named `name` is advertised.
pub open spec fn absent(entries: Seq<GlobalEntry>, name: u32) -> bool {
    forall|j: int| 0 <= j < entries.len() ==> entries[j].name != name
}

/// The first global advertised under `name` and not revoked since.
pub open spec fn spec_advertised(entries: Seq<GlobalEntry>, name: u32) -> Option<GlobalEntry> {
    if absent(entries, name) {
        None
    } else {
        Some(entries[choose|i: int| is_first(entries, name, i)])
    }
}

/// The state after an advertisement or a revocation arrives.
pub open spec fn after_event(state: RegistryState) -> RegistryState {
    match state {
        RegistryState::Listening => RegistryState::Advertising,
        other => other,
    }
}

/// The version to ask for: the lower of what the server advertises and what
/// the client supports.
pub fn negotiate(advertised: u32, ceiling: u32) -> (r: u32)
    ensures
        r == spec_negotiate(advertised, ceiling),
{
    if advertised <= ceiling {
        advertised
    } else {
        ceiling
    }
}

/// Accepts a requested version exactly where it does not exceed the
/// advertised one; otherwise the answer is `VersionMismatch`.
pub fn check_version(advertised: u32, requested: u32) -> (r: Result<u32, Error>)
    ensures
        r == spec_check_version(advertised, requested),
{
    if requested > advertised {
        Err(Error::VersionMismatch)
    } else {
        Ok(requested)
    }
}

/// What a client that wants one interface does on an advertisement: where
/// the global offers that interface, the version to bind, capped at the
/// client's ceiling; else nothing.
pub fn plan_bind(entry: &GlobalEntry, wanted: Interface, ceiling: u32) -> (r: Option<u32>)
    ensures
        r == (if entry.interface@ == spec_name(wanted) {
            Some(spec_negotiate(entry.version, ceiling))
        } else {
            None
        }),
{
    if wanted.is_named(entry.interface.as_slice()) {
        Some(negotiate(entry.version, ceiling))
    } else {
        None
    }
}

/// The advertised globals, in the order they arrived.
pub struct GlobalTable {
    state: RegistryState,
    entries: Vec<GlobalEntry>,
}

impl View for GlobalTable {
    type V = Seq<GlobalEntry>;

    closed spec fn view(&self) -> Seq<GlobalEntry> {
        self.entries@
    }
}

impl GlobalTable {
    pub closed spec fn state(&self) -> RegistryState {
        self.state
    }

    /// Nothing is advertised before the client asks for the registry.
    pub open spec fn wf(&self) -> bool {
        self.state() == RegistryState::Unbound ==> self@.len() == 0
    }

    /// An empty table, before the registry was asked for.
    pub fn new() -> (r: GlobalTable)
        ensures
            r@ == Seq::<GlobalEntry>::empty(),
            r.state() == RegistryState::Unbound,
    {
        GlobalTable { state: RegistryState::Unbound, entries: Vec::new() }
    }

    /// Where the registry object stands.
    pub fn current_state(&self) -> (r: RegistryState)
        ensures
            r == self.state(),
    {
        self.state
    }

    /// Number of globals advertised and not revoked.
    pub fn len(&self) -> (r: usize)
        ensures
            r == self@.len(),
    {
        self.entries.len()
    }

    /// The global at a place in arrival order.
    pub fn get(&self, i: usize) -> (r: &GlobalEntry)
        requires
            i < self@.len(),
        ensures
            *r == self@[i as int],
    {
        &self.entries[i]
    }

    /// Records that the client asked for the registry. Fails with
    /// `DuplicateBinding` where it had asked before.
    pub fn listen(&mut self) -> (r: Result<(), Error>)
        ensures
            final(self)@ == old(self)@,
            match r {
                Ok(_) => old(self).state() == RegistryState::Unbound && final(self).state()
                    == RegistryState::Listening,
                Err(e) => e == Error::DuplicateBinding && old(self).state()
                    != RegistryState::Unbound && final(self).state() == old(self).state(),
            },
    {
        match self.state {
            RegistryState::Unbound => {
                self.state = RegistryState::Listening;
                Ok(())
            },
            _ => Err(Error::DuplicateBinding),
        }
    }

    /// Records an advertisement, after those that came before. Fails with
    /// `ProtocolViolation` where the client never asked for the registry.
    pub fn advertise(&mut self, entry: GlobalEntry) -> (r: Result<(), Error>)
        ensures
            match r {
                Ok(_) => {
                    &&& old(self).state() != RegistryState::Unbound
                    &&& final(self)@ == old(self)@.push(entry)
                    &&& final(self).state() == after_event(old(self).state())
                },
                Err(e) => {
                    &&& e == Error::ProtocolViolation
                    &&& old(self).state() == RegistryState::Unbound
                    &&& final(self)@ == old(self)@
                    &&& final(self).state() == old(self).state()
                },
            },
    {
        match self.state {
            RegistryState::Unbound => Err(Error::ProtocolViolation),
            RegistryState::Listening => {
                self.state = RegistryState::Advertising;
                self.entries.push(entry);
                Ok(())
            },
            _ => {
                self.entries.push(entry);
                Ok(())
            },
        }
    }

    /// The first place at which a global of that name stands.
    pub fn find(&self, name: u32) -> (r: Option<usize>)
        ensures
            match r {
                Some(i) => is_first(self@, name, i as int),
                None => absent(self@, name),
            },
    {
        let mut i: usize = 0;
        while i < self.entries.len()
            invariant
                i <= self.entries@.len(),
                forall|j: int| 0 <= j < i ==> self.entries@[j].name != name,
            decreases self.entries@.len() - i,
        {
            if self.entries[i].name == name {
                return Some(i);
            }
            i += 1;
        }
        None
    }

    /// The first global advertised under `name` and not revoked since.
    pub fn advertised(&self, name: u32) -> (r: Option<&GlobalEntry>)
        ensures
            match r {
                Some(entry) => spec_advertised(self@, name) == Some(*entry),
                None => spec_advertised(self@, name) is None,
            },
    {
        match self.find(name) {
            Some(i) => {
                proof {
                    let j = choose|j: int| is_first(self@, name, j);
                    assert(is_first(self@, name, i as int));
                    lemma_first_unique(self@, name, i as int, j);
                }
                Some(&self.entries[i])
            },
            None => None,
        }
    }

    /// Takes a revoked global out of the table and returns it; the others
    /// keep their order. Revoking a name that is not advertised changes
    /// nothing. Fails with `ProtocolViolation` where the client never asked
    /// for the registry.
    pub fn revoke(&mut self, name: u32) -> (r: Result<Option<GlobalEntry>, Error>)
        ensures
            match r {
                Ok(Some(entry)) => {
                    &&& old(self).state() != RegistryState::Unbound
                    &&& final(self).state() == after_event(old(self).state())
                    &&& exists|i: int| #[trigger]
                        is_first(old(self)@, name, i) && entry == old(self)@[i] && final(self)@
                            == old(self)@.remove(i)
                },
                Ok(None) => {
                    &&& old(self).state() != RegistryState::Unbound
                    &&& final(self).state() == after_event(old(self).state())
                    &&& absent(old(self)@, name)
                    &&& final(self)@ == old(self)@
                },
                Err(e) => {
                    &&& e == Error::ProtocolViolation
                    &&& old(self).state() == RegistryState::Unbound
                    &&& final(self)@ == old(self)@
                    &&& final(self).state() == old(self).state()
                },
            },
    {
        match self.state {
            RegistryState::Unbound => {
                return Err(Error::ProtocolViolation);
            },
            RegistryState::Listening => {
                self.state = RegistryState::Advertising;
            },
            _ => {},
        }
        match self.find(name) {
            Some(i) => {
                let entry = self.entries.remove(i);
                assert(is_first(old(self)@, name, i as int));
                Ok(Some(entry))
            },
            None => Ok(None),
        }
    }

    /// Records that the client bound a global.
    pub fn note_bound(&mut self)
        requires
            old(self).state() != RegistryState::Unbound,
            old(self).wf(),
        ensures
            final(self)@ == old(self)@,
            final(self).state() == RegistryState::Bound,
    {
        self.state = RegistryState::Bound;
    }
}

/// The negotiated version never exceeds what the server advertises nor what
/// the client supports, and is one of the two.
pub proof fn lemma_negotiate_is_min(advertised: u32, ceiling: u32)
    ensures
        spec_negotiate(advertised, ceiling) <= advertised,
        spec_negotiate(advertised, ceiling) <= ceiling,
        spec_negotiate(advertised, ceiling) == advertised || spec_negotiate(advertised, ceiling)
            == ceiling,
{
}

/// A version above the advertised one is always refused with
/// `VersionMismatch`; one at or below it is always accepted as it is.
pub proof fn lemma_version_rule(advertised: u32, requested: u32)
    ensures
        requested > advertised ==> spec_check_version(advertised, requested) == Err::<u32, Error>(
            Error::VersionMismatch,
        ),
        requested <= advertised ==> spec_check_version(advertised, requested) == Ok::<u32, Error>(
            requested,
        ),
{
}

/// The negotiated version is always accepted.
pub proof fn lemma_negotiated_accepted(advertised: u32, ceiling: u32)
    ensures
        spec_check_version(advertised, spec_negotiate(advertised, ceiling)) == Ok::<u32, Error>(
            spec_negotiate(advertised, ceiling),
        ),
{
}

/// At most one place is the first at which a name stands.
pub proof fn lemma_first_unique(entries: Seq<GlobalEntry>, name: u32, i: int, j: int)
    requires
        is_first(entries, name, i),
        is_first(entries, name, j),
    ensures
        i == j,
{
}

} // verus!
